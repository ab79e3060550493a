use llm_cli::bias::TokenBias;
use llm_cli::decimal::Decimal;
use llm_cli::generate::{Generate, InferenceParameters, InferenceSessionParameters, ModelKVMemoryType};
use llm_cli::threads::{detect_threads, resolve_threads};
use rand::rngs::StdRng;
use rand::{RngCore, SeedableRng};

fn settings() -> Generate {
    Generate {
        num_threads: Some(4),
        num_predict: None,
        batch_size: 8,
        repeat_last_n: 64,
        repeat_penalty: Decimal::parse("1.30").unwrap(),
        temperature: Decimal::parse("0.80").unwrap(),
        top_k: 40,
        top_p: Decimal::parse("0.95").unwrap(),
        load_session: None,
        seed: None,
        float16: false,
        token_bias: None,
        ignore_eos: false,
    }
}

fn described(parameters: &InferenceParameters) -> (usize, usize, usize, String, String, String, String) {
    (
        parameters.n_threads,
        parameters.n_batch,
        parameters.top_k,
        parameters.top_p.as_str().to_string(),
        parameters.repeat_penalty.as_str().to_string(),
        parameters.temperature.as_str().to_string(),
        parameters.bias_tokens.to_text(),
    )
}

#[test]
fn a_given_bias_table_overrides_the_suppression() {
    let table = TokenBias::parse("5=0.5,9=-2").unwrap();
    let with = Generate { token_bias: Some(table.clone()), ignore_eos: true, ..settings() };
    let without = Generate { token_bias: Some(table), ignore_eos: false, ..settings() };
    let one = with.resolve(2, None);
    let other = without.resolve(2, None);
    assert_eq!(described(&one.inference), described(&other.inference));
    assert_eq!(one.session, other.session);
    assert_eq!(one.seed, other.seed);
    assert_eq!(one.inference.bias_tokens.to_text(), "5=0.5,9=-2");
    assert!(one.inference.bias_tokens.get(2).is_none());
}

#[test]
fn suppression_is_one_entry_for_the_end_token() {
    let settings = Generate { ignore_eos: true, ..settings() };
    let parameters = settings.inference_parameters(2, None);
    assert_eq!(parameters.bias_tokens.len(), 1);
    assert_eq!(parameters.bias_tokens.entry(0).unwrap().0, 2);
    assert!(parameters.bias_tokens.entry(1).is_none());
    let bias: f32 = parameters.bias_tokens.get(2).unwrap().as_str().parse().unwrap();
    assert_eq!(bias, -1.0);
    let other = settings.inference_parameters(50256, None);
    assert_eq!(other.bias_tokens.to_text(), "50256=-1.0");
}

#[test]
fn without_table_and_suppression_the_bias_is_empty() {
    let parameters = settings().inference_parameters(2, None);
    assert_eq!(parameters.bias_tokens.len(), 0);
    assert_eq!(settings().bias_tokens(2).len(), 0);
}

#[test]
fn the_settings_are_handed_on() {
    let settings = Generate {
        batch_size: 16,
        top_k: 50,
        temperature: Decimal::parse("0.7").unwrap(),
        ..settings()
    };
    let parameters = settings.inference_parameters(2, None);
    assert_eq!(
        described(&parameters),
        (4, 16, 50, "0.95".to_string(), "1.30".to_string(), "0.7".to_string(), "".to_string())
    );
    let fixed = settings.inference_parameters_with(2, 12);
    assert_eq!(fixed.n_threads, 12);
    assert_eq!(fixed.n_batch, 16);
}

#[test]
fn the_precision_follows_the_flag() {
    assert_eq!(
        settings().inference_session_parameters(),
        InferenceSessionParameters {
            memory_k_type: ModelKVMemoryType::Float32,
            memory_v_type: ModelKVMemoryType::Float32,
            repetition_penalty_last_n: 64,
        }
    );
    let half = Generate { float16: true, repeat_last_n: 512, ..settings() };
    assert_eq!(
        half.inference_session_parameters(),
        InferenceSessionParameters {
            memory_k_type: ModelKVMemoryType::Float16,
            memory_v_type: ModelKVMemoryType::Float16,
            repetition_penalty_last_n: 512,
        }
    );
}

#[test]
fn the_configuration_holds_the_seed() {
    let seeded = Generate { seed: Some(42), float16: true, ..settings() };
    let config = seeded.resolve(2, Some(6));
    assert_eq!(config.seed, Some(42));
    assert_eq!(config.session.memory_k_type, ModelKVMemoryType::Float16);
    assert_eq!(config.inference.n_threads, 4);
    assert_eq!(settings().resolve(2, None).seed, None);
}

#[test]
fn a_given_number_of_threads_is_taken_as_it_is() {
    assert_eq!(settings().num_threads(None), 4);
    assert_eq!(settings().num_threads(Some(6)), 4);
    let many = Generate { num_threads: Some(100_000), ..settings() };
    assert_eq!(many.num_threads(None), 100_000);
    let none = Generate { num_threads: Some(0), ..settings() };
    assert_eq!(none.num_threads(None), 0);
}

#[test]
fn without_a_given_number_the_machine_is_asked() {
    let auto = Generate { num_threads: None, ..settings() };
    assert_eq!(auto.num_threads(None), num_cpus::get_physical());
    assert_eq!(auto.autodetect_num_threads(None), num_cpus::get_physical());
    assert!(auto.num_threads(None) >= 1);
    assert_eq!(auto.num_threads(Some(6)), 6);
    assert_eq!(auto.autodetect_num_threads(Some(6)), 6);
    assert_eq!(auto.num_threads(Some(0)), num_cpus::get_physical());
    assert_eq!(auto.inference_parameters(2, Some(3)).n_threads, 3);
    assert_eq!(detect_threads(None), num_cpus::get_physical());
}

#[test]
fn threads_resolve_by_precedence() {
    assert_eq!(resolve_threads(Some(2), Some(6), 8), 2);
    assert_eq!(resolve_threads(Some(0), Some(6), 8), 0);
    assert_eq!(resolve_threads(None, Some(6), 8), 6);
    assert_eq!(resolve_threads(None, Some(0), 8), 8);
    assert_eq!(resolve_threads(None, None, 8), 8);
}

#[test]
fn the_same_seed_gives_the_same_numbers() {
    let one = Generate { seed: Some(1234), ..settings() };
    let other = Generate { seed: Some(1234), top_k: 1, ..settings() };
    let mut first = one.rng().unwrap();
    let mut second = other.rng().unwrap();
    let mut reference = StdRng::seed_from_u64(1234);
    for _ in 0..64 {
        let number = first.next_u64();
        assert_eq!(number, second.next_u64());
        assert_eq!(number, reference.next_u64());
    }
}

#[test]
fn different_seeds_give_different_numbers() {
    let mut one = Generate { seed: Some(1), ..settings() }.rng().unwrap();
    let mut other = Generate { seed: Some(2), ..settings() }.rng().unwrap();
    let first: Vec<u64> = (0..8).map(|_| one.next_u64()).collect();
    let second: Vec<u64> = (0..8).map(|_| other.next_u64()).collect();
    assert_ne!(first, second);
}

#[test]
fn without_a_seed_the_numbers_differ() {
    let unseeded = settings();
    let mut one = unseeded.rng().unwrap();
    let mut other = unseeded.rng().unwrap();
    let first: Vec<u64> = (0..8).map(|_| one.next_u64()).collect();
    let second: Vec<u64> = (0..8).map(|_| other.next_u64()).collect();
    assert_ne!(first, second);
}
