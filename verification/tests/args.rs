use llm_cli::args::{Convert, DumpTokens, FileType, Info, Quantize, QuantizationTarget};
use llm_cli::load::ModelLoad;
use llm_cli::prompt::PromptFile;
use std::path::PathBuf;

#[test]
fn the_arguments_are_plain_values() {
    let info = Info { model_path: PathBuf::from("model.bin"), dump_vocabulary: true };
    assert_eq!(info.model_path, PathBuf::from("model.bin"));
    assert!(info.dump_vocabulary);
    let dump = DumpTokens {
        model_load: ModelLoad { model_path: PathBuf::from("m"), num_ctx_tokens: 512, no_mmap: true },
        prompt_file: PromptFile { prompt_file: None },
        prompt: Some("hi".to_string()),
    };
    assert_eq!(dump.model_load.num_ctx_tokens, 512);
    assert_eq!(dump.prompt.as_deref(), Some("hi"));
    let convert = Convert { directory: PathBuf::from("dir"), file_type: FileType::Q4_0 };
    assert_eq!(convert.file_type, FileType::Q4_0);
    assert_ne!(FileType::F16, FileType::F32);
    assert_ne!(FileType::Q4_1, FileType::Q4_0);
    let quantize = Quantize {
        source: PathBuf::from("a"),
        destination: PathBuf::from("b"),
        target: QuantizationTarget::Q4_1,
    };
    assert_eq!(quantize.target, QuantizationTarget::Q4_1);
    assert_ne!(quantize.target, QuantizationTarget::Q4_0);
}
