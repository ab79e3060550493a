//! The settings of text generation, and what they resolve to.

use crate::bias::{TokenBias, TokenId};
use crate::decimal::Decimal;
use crate::outside::{rng_from_entropy, rng_from_seed, seeded_rng};
use crate::threads::{detect_threads, resolved_threads};
use rand::rngs::StdRng;
use std::path::PathBuf;
use vstd::prelude::*;

verus! {

/// The precision of the memory of keys and values.
#[derive(Clone, Copy, Debug, PartialEq, Eq, Structural)]
pub enum ModelKVMemoryType {
    /// 16-bit floats.
    Float16,
    /// 32-bit floats.
    Float32,
}

/// The settings that an inference session is created with. A session that
/// was saved can only be restored with the precision it was saved with.
#[derive(Clone, Copy, Debug, PartialEq, Eq, Structural)]
pub struct InferenceSessionParameters {
    /// The precision of the memory of keys.
    pub memory_k_type: ModelKVMemoryType,
    /// The precision of the memory of values.
    pub memory_v_type: ModelKVMemoryType,
    /// How many of the last tokens the repetition penalty looks at.
    pub repetition_penalty_last_n: usize,
}

/// The settings of sampling, resolved.
#[derive(Debug)]
pub struct InferenceParameters {
    /// The number of threads to work with.
    pub n_threads: usize,
    /// How many tokens of the prompt are fed at a time.
    pub n_batch: usize,
    /// How many of the best tokens are kept.
    pub top_k: usize,
    /// The cumulative probability beyond which no token is kept.
    pub top_p: Decimal,
    /// The penalty on repeated tokens.
    pub repeat_penalty: Decimal,
    /// The temperature.
    pub temperature: Decimal,
    /// The biases of tokens.
    pub bias_tokens: TokenBias,
}

/// The settings of sampling as mathematics: numbers, the characters of each
/// decimal, and the bias table as a map.
pub struct InferenceParametersView {
    pub n_threads: usize,
    pub n_batch: usize,
    pub top_k: usize,
    pub top_p: Seq<char>,
    pub repeat_penalty: Seq<char>,
    pub temperature: Seq<char>,
    pub bias_tokens: Map<TokenId, Seq<char>>,
}

impl View for InferenceParameters {
    type V = InferenceParametersView;

    open spec fn view(&self) -> InferenceParametersView {
        InferenceParametersView {
            n_threads: self.n_threads,
            n_batch: self.n_batch,
            top_k: self.top_k,
            top_p: self.top_p@,
            repeat_penalty: self.repeat_penalty@,
            temperature: self.temperature@,
            bias_tokens: self.bias_tokens@,
        }
    }
}

/// Everything that one invocation samples with.
#[derive(Debug)]
pub struct SamplingConfig {
    /// The settings of sampling.
    pub inference: InferenceParameters,
    /// The settings of the session.
    pub session: InferenceSessionParameters,
    /// The seed of the random numbers, if the user fixed one.
    pub seed: Option<u64>,
}

/// A sampling configuration as mathematics.
pub struct SamplingConfigView {
    pub inference: InferenceParametersView,
    pub session: InferenceSessionParameters,
    pub seed: Option<u64>,
}

impl View for SamplingConfig {
    type V = SamplingConfigView;

    open spec fn view(&self) -> SamplingConfigView {
        SamplingConfigView { inference: self.inference@, session: self.session, seed: self.seed }
    }
}

/// The settings of generation, as the user gave them.
#[derive(Debug)]
pub struct Generate {
    /// The number of threads to use.
    pub num_threads: Option<usize>,
    /// How many tokens to predict.
    pub num_predict: Option<usize>,
    /// How many tokens of the prompt are fed at a time.
    pub batch_size: usize,
    /// How many of the last tokens the repetition penalty looks at.
    pub repeat_last_n: usize,
    /// The penalty on repeated tokens.
    pub repeat_penalty: Decimal,
    /// The temperature.
    pub temperature: Decimal,
    /// How many of the best tokens are kept.
    pub top_k: usize,
    /// The cumulative probability beyond which no token is kept.
    pub top_p: Decimal,
    /// A saved session to start from.
    pub load_session: Option<PathBuf>,
    /// The seed of the random numbers.
    pub seed: Option<u64>,
    /// Keep the memory of keys and values in 16-bit floats.
    pub float16: bool,
    /// The biases of tokens.
    pub token_bias: Option<TokenBias>,
    /// Keep the end-of-sequence token from being chosen. A bias table that
    /// the user gave overrides this.
    pub ignore_eos: bool,
}

impl Generate {
    /// The precision that the user chose.
    pub open spec fn memory_type(self) -> ModelKVMemoryType {
        if self.float16 {
            ModelKVMemoryType::Float16
        } else {
            ModelKVMemoryType::Float32
        }
    }

    /// The session settings that these settings resolve to.
    pub open spec fn session_parameters(self) -> InferenceSessionParameters {
        InferenceSessionParameters {
            memory_k_type: self.memory_type(),
            memory_v_type: self.memory_type(),
            repetition_penalty_last_n: self.repeat_last_n,
        }
    }

    /// The bias table that these settings resolve to. Exactly one of three
    /// cases applies: the table that the user gave, whatever `ignore_eos`
    /// says; without one, the table that suppresses `eot`, where `ignore_eos`
    /// is set; else the empty table.
    pub open spec fn resolved_bias(self, eot: TokenId) -> Map<TokenId, Seq<char>> {
        match self.token_bias {
            Some(table) => table@,
            None => if self.ignore_eos {
                map![eot => seq!['-', '1', '.', '0']]
            } else {
                Map::empty()
            },
        }
    }

    /// The sampling settings that these settings resolve to, for the
    /// end-of-sequence token `eot` and a number of threads.
    pub open spec fn resolved_parameters(self, eot: TokenId, n_threads: usize) -> InferenceParametersView {
        InferenceParametersView {
            n_threads,
            n_batch: self.batch_size,
            top_k: self.top_k,
            top_p: self.top_p@,
            repeat_penalty: self.repeat_penalty@,
            temperature: self.temperature@,
            bias_tokens: self.resolved_bias(eot),
        }
    }

    /// The configuration that these settings resolve to.
    pub open spec fn resolved(self, eot: TokenId, n_threads: usize) -> SamplingConfigView {
        SamplingConfigView {
            inference: self.resolved_parameters(eot, n_threads),
            session: self.session_parameters(),
            seed: self.seed,
        }
    }

    /// The generator that the seed of these settings fixes, if they hold one.
    pub open spec fn seeded(self) -> Option<StdRng> {
        match self.seed {
            Some(seed) => Some(seeded_rng(seed)),
            None => None,
        }
    }

    /// The number of threads that suits this machine: the number of
    /// performance cores, where the platform told one and it is not zero,
    /// else the number of physical cores. It is never zero.
    pub fn autodetect_num_threads(&self, performance_cores: Option<usize>) -> (count: usize)
        ensures
            count >= 1,
            performance_cores matches Some(cores) ==> (cores >= 1 ==> count == cores),
    {
        detect_threads(performance_cores)
    }

    /// The number of threads to work with: the number that the user gave, as
    /// it is, else the number that suits this machine.
    pub fn num_threads(&self, performance_cores: Option<usize>) -> (count: usize)
        ensures
            self.num_threads matches Some(given) ==> count == given,
            self.num_threads is None ==> count >= 1,
            self.num_threads is None ==> (performance_cores matches Some(cores) ==> (cores >= 1
                ==> count == cores)),
            exists|physical_cores: usize|
                physical_cores >= 1 && count == resolved_threads(
                    self.num_threads,
                    performance_cores,
                    physical_cores,
                ),
    {
        match self.num_threads {
            Some(count) => {
                assert(count == resolved_threads(self.num_threads, performance_cores, 1));
                count
            },
            None => {
                let count = self.autodetect_num_threads(performance_cores);
                assert(count == resolved_threads(self.num_threads, performance_cores, count));
                count
            },
        }
    }

    /// The settings of the session.
    pub fn inference_session_parameters(&self) -> (parameters: InferenceSessionParameters)
        ensures
            parameters == self.session_parameters(),
    {
        let mem_typ = if self.float16 {
            ModelKVMemoryType::Float16
        } else {
            ModelKVMemoryType::Float32
        };
        InferenceSessionParameters {
            memory_k_type: mem_typ,
            memory_v_type: mem_typ,
            repetition_penalty_last_n: self.repeat_last_n,
        }
    }

    /// The generator of random numbers: the one that the seed fixes, where
    /// the user gave a seed; else one seeded by the operating system, or
    /// nothing where the system gives no entropy.
    pub fn rng(&self) -> (rng: Option<StdRng>)
        ensures
            self.seed is Some ==> rng == self.seeded(),
    {
        match self.seed {
            Some(seed) => Some(rng_from_seed(seed)),
            None => rng_from_entropy(),
        }
    }

    /// The bias table to sample with, for the end-of-sequence token `eot`.
    pub fn bias_tokens(&self, eot: TokenId) -> (table: TokenBias)
        ensures
            table@ == self.resolved_bias(eot),
    {
        match &self.token_bias {
            Some(table) => table.clone(),
            None => if self.ignore_eos {
                TokenBias::suppressing(eot)
            } else {
                TokenBias::empty()
            },
        }
    }

    /// The sampling settings, for the end-of-sequence token `eot` and a
    /// number of threads that is already decided.
    pub fn inference_parameters_with(&self, eot: TokenId, n_threads: usize) -> (parameters:
        InferenceParameters)
        ensures
            parameters@ == self.resolved_parameters(eot, n_threads),
    {
        InferenceParameters {
            n_threads,
            n_batch: self.batch_size,
            top_k: self.top_k,
            top_p: self.top_p.clone(),
            repeat_penalty: self.repeat_penalty.clone(),
            temperature: self.temperature.clone(),
            bias_tokens: self.bias_tokens(eot),
        }
    }

    /// The sampling settings, for the end-of-sequence token `eot`. The number
    /// of threads is the one that `num_threads` gives.
    pub fn inference_parameters(&self, eot: TokenId, performance_cores: Option<usize>) -> (parameters:
        InferenceParameters)
        ensures
            parameters@ == self.resolved_parameters(eot, parameters.n_threads),
            self.num_threads matches Some(given) ==> parameters.n_threads == given,
            self.num_threads is None ==> parameters.n_threads >= 1,
    {
        let n_threads = self.num_threads(performance_cores);
        self.inference_parameters_with(eot, n_threads)
    }

    /// Everything that this invocation samples with, for the end-of-sequence
    /// token `eot`.
    pub fn resolve(&self, eot: TokenId, performance_cores: Option<usize>) -> (config: SamplingConfig)
        ensures
            config@ == self.resolved(eot, config.inference.n_threads),
            self.num_threads matches Some(given) ==> config.inference.n_threads == given,
            self.num_threads is None ==> config.inference.n_threads >= 1,
    {
        SamplingConfig {
            inference: self.inference_parameters(eot, performance_cores),
            session: self.inference_session_parameters(),
            seed: self.seed,
        }
    }
}

/// A bias table that the user gave is the resolved one, whatever the
/// suppression of the end-of-sequence token is set to: two settings that
/// differ in nothing else resolve to the same configuration.
pub proof fn lemma_explicit_bias_overrides(
    one: Generate,
    other: Generate,
    eot: TokenId,
    n_threads: usize,
)
    requires
        one.token_bias is Some,
        other == (Generate { ignore_eos: other.ignore_eos, ..one }),
    ensures
        one.resolved(eot, n_threads) == other.resolved(eot, n_threads),
        one.resolved(eot, n_threads).inference.bias_tokens == one.token_bias->0@,
{
}

/// Without a bias table from the user, suppressing the end-of-sequence token
/// resolves to the table with exactly one entry: that token, with the bias
/// `-1.0`.
pub proof fn lemma_suppression_is_one_entry(settings: Generate, eot: TokenId, n_threads: usize)
    requires
        settings.token_bias is None,
        settings.ignore_eos,
    ensures
        settings.resolved(eot, n_threads).inference.bias_tokens.dom() == set![eot],
        settings.resolved(eot, n_threads).inference.bias_tokens.len() == 1,
        settings.resolved(eot, n_threads).inference.bias_tokens[eot] == seq!['-', '1', '.', '0'],
{
    let table = settings.resolved(eot, n_threads).inference.bias_tokens;
    assert(table.dom() == set![eot]);
    assert(set![eot].len() == 1) by {
        assert(set![eot] == Set::<TokenId>::empty().insert(eot));
    }
}

/// Without a bias table from the user and without suppression, the resolved
/// table is empty.
pub proof fn lemma_no_bias_is_empty(settings: Generate, eot: TokenId, n_threads: usize)
    requires
        settings.token_bias is None,
        !settings.ignore_eos,
    ensures
        settings.resolved(eot, n_threads).inference.bias_tokens == Map::<TokenId, Seq<char>>::empty(),
{
}

/// The seed decides the generator: settings with one and the same seed give
/// one and the same generator, and so the same random numbers.
pub proof fn lemma_seed_decides_rng(one: Generate, other: Generate)
    requires
        one.seed is Some,
        one.seed == other.seed,
    ensures
        one.seeded() is Some,
        one.seeded() == other.seeded(),
{
}

} // verus!
