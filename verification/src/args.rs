//! The arguments of the command line, as plain values.

use crate::generate::Generate;
use crate::load::ModelLoad;
use crate::prompt::PromptFile;
use crate::session::{mode_of, session_mode, SessionMode};
use std::path::PathBuf;
use vstd::prelude::*;

verus! {

/// The command line: the model family, and what to do with a model of it.
#[derive(Debug)]
pub enum Args {
    /// Use a LLaMA model.
    Llama { args: BaseArgs },
    /// Use a BLOOM model.
    Bloom { args: BaseArgs },
    /// Use a GPT-2 model.
    Gpt2 { args: BaseArgs },
    /// Use a GPT-NeoX model.
    NeoX { args: BaseArgs },
}

/// What to do with a model.
#[derive(Debug)]
pub enum BaseArgs {
    /// Infer the next tokens of a prompt, and exit.
    Infer(Box<Infer>),
    /// Tell about a model file.
    Info(Box<Info>),
    /// Print the tokens of the prompt, and exit.
    DumpTokens(Box<DumpTokens>),
    /// Prompt the model again and again, each time from a fresh context.
    Repl(Box<Repl>),
    /// Chat with the model.
    ChatExperimental(Box<Repl>),
    /// Quantize a model.
    Quantize(Box<Quantize>),
}

/// The arguments of one inference.
#[derive(Debug)]
pub struct Infer {
    pub model_load: ModelLoad,
    pub prompt_file: PromptFile,
    pub generate: Generate,
    /// The prompt. With a prompt file, it takes the place of the placeholder
    /// in the file.
    pub prompt: Option<String>,
    /// Where to save the session after inference.
    pub save_session: Option<PathBuf>,
    /// Where to load the session from if it is there, and to save it after
    /// inference.
    pub persist_session: Option<PathBuf>,
}

/// The arguments of a look at a model file.
#[derive(Debug)]
pub struct Info {
    /// The model to inspect.
    pub model_path: PathBuf,
    /// Whether to print the whole vocabulary.
    pub dump_vocabulary: bool,
}

/// The arguments of printing a prompt's tokens.
#[derive(Debug)]
pub struct DumpTokens {
    pub model_load: ModelLoad,
    pub prompt_file: PromptFile,
    /// The prompt. With a prompt file, it takes the place of the placeholder
    /// in the file.
    pub prompt: Option<String>,
}

/// The arguments of an interactive run.
#[derive(Debug)]
pub struct Repl {
    pub model_load: ModelLoad,
    pub prompt_file: PromptFile,
    pub generate: Generate,
}

/// The arguments of a conversion.
#[derive(Debug)]
pub struct Convert {
    /// The directory of the model.
    pub directory: PathBuf,
    /// The file type to convert to.
    pub file_type: FileType,
}

/// How the tensors of a model file are stored.
#[allow(non_camel_case_types)]
#[derive(Clone, Copy, Debug, PartialEq, Eq, Structural)]
pub enum FileType {
    /// Quantized 4-bit (type 0).
    Q4_0,
    /// Quantized 4-bit (type 1).
    Q4_1,
    /// Float 16-bit.
    F16,
    /// Float 32-bit.
    F32,
}

/// The arguments of a quantization.
#[derive(Debug)]
pub struct Quantize {
    /// The model to quantize.
    pub source: PathBuf,
    /// Where to save the quantized model.
    pub destination: PathBuf,
    /// The format to quantize to.
    pub target: QuantizationTarget,
}

/// The formats that a model can be quantized to.
#[allow(non_camel_case_types)]
#[derive(Clone, Copy, Debug, PartialEq, Eq, Structural)]
pub enum QuantizationTarget {
    /// Quantized 4-bit (type 0).
    Q4_0,
    /// Quantized 4-bit (type 1).
    Q4_1,
}

/// `path` as a borrowed option.
fn borrowed(path: &Option<PathBuf>) -> (out: Option<&PathBuf>)
    ensures
        out == as_borrowed(*path),
{
    match path {
        Some(path) => Some(path),
        None => None,
    }
}

/// `path` as a borrowed option.
pub open spec fn as_borrowed(path: Option<PathBuf>) -> Option<&'static PathBuf> {
    match path {
        Some(path) => Some(&path),
        None => None,
    }
}

impl Infer {
    /// How this inference treats sessions: by its three session paths.
    pub fn session_mode(&self) -> (mode: SessionMode<'_>)
        ensures
            mode == mode_of(
                as_borrowed(self.generate.load_session),
                as_borrowed(self.save_session),
                as_borrowed(self.persist_session),
            ),
    {
        session_mode(
            borrowed(&self.generate.load_session),
            borrowed(&self.save_session),
            borrowed(&self.persist_session),
        )
    }
}

impl Repl {
    /// How an interactive run treats sessions: it may load one, and saves
    /// none.
    pub fn session_mode(&self) -> (mode: SessionMode<'_>)
        ensures
            mode == mode_of(as_borrowed(self.generate.load_session), None, None),
    {
        session_mode(borrowed(&self.generate.load_session), None, None)
    }
}

} // verus!
