//! Configuration resolution and session continuity for a text-generation
//! command line: the rules that turn loosely specified user input into the
//! parameters a generation engine consumes, stated as contracts and proved.
//!
//! Nothing here reads a file, asks the clock or computes with floating
//! point. Real-valued settings are kept as the decimal literals that the
//! user wrote; what a file held is handed in by the caller.

pub mod args;
pub mod bias;
pub mod decimal;
pub mod error;
pub mod generate;
pub mod load;
pub mod outside;
pub mod prompt;
pub mod session;
pub mod text;
pub mod threads;

pub use args::{
    Args, BaseArgs, Convert, DumpTokens, FileType, Infer, Info, QuantizationTarget, Quantize, Repl,
};
pub use bias::{ParseError, ParseErrorKind, TokenBias, TokenId};
pub use decimal::Decimal;
pub use error::IoError;
pub use generate::{
    Generate, InferenceParameters, InferenceSessionParameters, ModelKVMemoryType, SamplingConfig,
};
pub use load::{LoadPhase, LoadProgress, LogLevel, ModelLoad, ProgressReport, ProtocolViolation};
pub use prompt::PromptFile;
pub use session::{SessionMode, SessionRead};
