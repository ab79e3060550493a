//! Model loading: the request handed to the engine, and the protocol of
//! progress events that the engine reports while it materialises a model.

use std::path::PathBuf;
use vstd::prelude::*;

verus! {

/// Where a model is loaded from, and how.
#[derive(Debug)]
pub struct ModelLoad {
    /// Where to load the model from.
    pub model_path: PathBuf,
    /// The size of the context, in tokens: how much prompt and conversation
    /// history the loaded model can address.
    pub num_ctx_tokens: usize,
    /// Load the whole model into memory instead of mapping the file.
    pub no_mmap: bool,
}

impl ModelLoad {
    /// Whether the engine may map the model file into memory.
    pub fn prefer_mmap(&self) -> (prefer: bool)
        ensures
            prefer == !self.no_mmap,
    {
        !self.no_mmap
    }
}

/// One step of the engine's work on a model, as it reports it.
#[derive(Clone, Copy, Debug, PartialEq, Eq, Structural)]
pub enum LoadProgress {
    /// The hyperparameters have been read.
    HyperparametersLoaded,
    /// The size of the working context is known.
    ContextSize { bytes: usize },
    /// One more tensor has been read; `current_tensor` counts from zero.
    TensorLoaded { current_tensor: usize, tensor_count: usize },
    /// The model is complete.
    Loaded { byte_size: u64, tensor_count: usize },
}

/// How loudly a report is made.
#[derive(Clone, Copy, Debug, PartialEq, Eq, Structural)]
pub enum LogLevel {
    Debug,
    Info,
}

/// What is told to the user about a progress event.
#[derive(Clone, Copy, Debug, PartialEq, Eq, Structural)]
pub enum ProgressReport {
    /// The hyperparameters are in.
    Hyperparameters,
    /// The working context takes `bytes` bytes.
    ContextSize { bytes: usize },
    /// `loaded` of `tensor_count` tensors are in.
    Tensors { loaded: usize, tensor_count: usize },
    /// The model is complete, with its size and its number of tensors.
    Complete { byte_size: u64, tensor_count: usize },
}

/// Tensors are reported in strides of this many.
pub const TENSOR_REPORT_STRIDE: usize = 8;

/// The report that a progress event gives rise to, if any. Every event is
/// reported but `TensorLoaded`, of which only each eighth is: the one that
/// brings the number of tensors read to a multiple of the stride.
pub open spec fn report_of(progress: LoadProgress) -> Option<ProgressReport> {
    match progress {
        LoadProgress::HyperparametersLoaded => Some(ProgressReport::Hyperparameters),
        LoadProgress::ContextSize { bytes } => Some(ProgressReport::ContextSize { bytes }),
        LoadProgress::TensorLoaded { current_tensor, tensor_count } => {
            if current_tensor < usize::MAX && (current_tensor + 1) % (TENSOR_REPORT_STRIDE as int)
                == 0 {
                Some(
                    ProgressReport::Tensors {
                        loaded: (current_tensor + 1) as usize,
                        tensor_count,
                    },
                )
            } else {
                None
            }
        },
        LoadProgress::Loaded { byte_size, tensor_count } => Some(
            ProgressReport::Complete { byte_size, tensor_count },
        ),
    }
}

/// Decides what to tell the user about one progress event.
pub fn progress_report(progress: LoadProgress) -> (report: Option<ProgressReport>)
    ensures
        report == report_of(progress),
{
    match progress {
        LoadProgress::HyperparametersLoaded => Some(ProgressReport::Hyperparameters),
        LoadProgress::ContextSize { bytes } => Some(ProgressReport::ContextSize { bytes }),
        LoadProgress::TensorLoaded { current_tensor, tensor_count } => {
            if current_tensor < usize::MAX {
                let loaded: usize = current_tensor + 1;
                if loaded % TENSOR_REPORT_STRIDE == 0 {
                    Some(ProgressReport::Tensors { loaded, tensor_count })
                } else {
                    None
                }
            } else {
                None
            }
        },
        LoadProgress::Loaded { byte_size, tensor_count } => Some(
            ProgressReport::Complete { byte_size, tensor_count },
        ),
    }
}

impl ProgressReport {
    /// The level of a report: the hyperparameters are a detail, the rest is
    /// information.
    pub open spec fn level_of(self) -> LogLevel {
        match self {
            ProgressReport::Hyperparameters => LogLevel::Debug,
            _ => LogLevel::Info,
        }
    }

    /// The level at which this report is made.
    pub fn level(&self) -> (level: LogLevel)
        ensures
            level == self.level_of(),
    {
        match self {
            ProgressReport::Hyperparameters => LogLevel::Debug,
            _ => LogLevel::Info,
        }
    }
}

/// How far a model load has come, as told by the events seen so far.
#[derive(Clone, Copy, Debug, PartialEq, Eq, Structural)]
pub enum LoadPhase {
    /// Nothing has been reported yet.
    Started,
    /// The hyperparameters are in; the context size is due.
    HyperparametersKnown,
    /// Tensors are being read. `next` is the index that the next tensor must
    /// carry; `total` is the tensor count that the events so far agreed on.
    LoadingTensors { next: usize, total: Option<usize> },
    /// The terminal event has been seen.
    Finished,
}

/// A breach of the progress protocol.
#[derive(Clone, Copy, Debug, PartialEq, Eq, Structural)]
pub enum ProtocolViolation {
    /// The event does not belong at this point of the load.
    OutOfOrder,
    /// The event's tensor count contradicts the tensors reported before it.
    TensorCountMismatch,
}

impl LoadPhase {
    /// The phase that follows `self` when `event` arrives, or the breach that
    /// `event` is.
    pub open spec fn after(self, event: LoadProgress) -> Result<LoadPhase, ProtocolViolation> {
        match (self, event) {
            (LoadPhase::Started, LoadProgress::HyperparametersLoaded) => Ok(
                LoadPhase::HyperparametersKnown,
            ),
            (LoadPhase::HyperparametersKnown, LoadProgress::ContextSize { .. }) => Ok(
                LoadPhase::LoadingTensors { next: 0, total: None },
            ),
            (
                LoadPhase::LoadingTensors { next, total },
                LoadProgress::TensorLoaded { current_tensor, tensor_count },
            ) => {
                if total is Some && total != Some(tensor_count) {
                    Err(ProtocolViolation::TensorCountMismatch)
                } else if current_tensor != next || current_tensor >= tensor_count {
                    Err(ProtocolViolation::OutOfOrder)
                } else {
                    Ok(
                        LoadPhase::LoadingTensors {
                            next: (next + 1) as usize,
                            total: Some(tensor_count),
                        },
                    )
                }
            },
            (LoadPhase::LoadingTensors { next, total }, LoadProgress::Loaded { tensor_count, .. }) => {
                if tensor_count == next && (total is None || total == Some(tensor_count)) {
                    Ok(LoadPhase::Finished)
                } else {
                    Err(ProtocolViolation::TensorCountMismatch)
                }
            },
            _ => Err(ProtocolViolation::OutOfOrder),
        }
    }

    /// The phase reached from `self` by a run of events, or the first breach.
    pub open spec fn after_all(self, events: Seq<LoadProgress>) -> Result<
        LoadPhase,
        ProtocolViolation,
    >
        decreases events.len(),
    {
        if events.len() == 0 {
            Ok(self)
        } else {
            match self.after(events[0]) {
                Ok(next) => next.after_all(events.drop_first()),
                Err(violation) => Err(violation),
            }
        }
    }

    /// Takes one event into account.
    pub fn observe(self, event: LoadProgress) -> (outcome: Result<LoadPhase, ProtocolViolation>)
        ensures
            outcome == self.after(event),
    {
        match (self, event) {
            (LoadPhase::Started, LoadProgress::HyperparametersLoaded) => Ok(
                LoadPhase::HyperparametersKnown,
            ),
            (LoadPhase::HyperparametersKnown, LoadProgress::ContextSize { .. }) => Ok(
                LoadPhase::LoadingTensors { next: 0, total: None },
            ),
            (
                LoadPhase::LoadingTensors { next, total },
                LoadProgress::TensorLoaded { current_tensor, tensor_count },
            ) => {
                let disagrees = match total {
                    Some(count) => count != tensor_count,
                    None => false,
                };
                if disagrees {
                    Err(ProtocolViolation::TensorCountMismatch)
                } else if current_tensor != next || current_tensor >= tensor_count {
                    Err(ProtocolViolation::OutOfOrder)
                } else {
                    Ok(LoadPhase::LoadingTensors { next: next + 1, total: Some(tensor_count) })
                }
            },
            (LoadPhase::LoadingTensors { next, total }, LoadProgress::Loaded { tensor_count, .. }) => {
                let agrees = match total {
                    Some(count) => count == tensor_count,
                    None => true,
                };
                if tensor_count == next && agrees {
                    Ok(LoadPhase::Finished)
                } else {
                    Err(ProtocolViolation::TensorCountMismatch)
                }
            },
            _ => Err(ProtocolViolation::OutOfOrder),
        }
    }
}

/// A whole load, from first event to last: the hyperparameters, the context
/// size, every tensor in turn from index zero with one and the same count,
/// and a terminal event that names that count.
pub open spec fn is_complete_load(events: Seq<LoadProgress>) -> bool {
    let count = events.len() - 3;
    &&& events.len() >= 3
    &&& events[0] == LoadProgress::HyperparametersLoaded
    &&& events[1] is ContextSize
    &&& forall|k: int|
        2 <= k < 2 + count ==> #[trigger] events[k] == (LoadProgress::TensorLoaded {
            current_tensor: (k - 2) as usize,
            tensor_count: count as usize,
        })
    &&& events[events.len() - 1] matches LoadProgress::Loaded { tensor_count, .. }
        && tensor_count == count
}

/// The events that may follow once `next` tensors are in: the tensors from
/// `next` on, and the terminal event.
spec fn is_remaining_load(next: usize, total: Option<usize>, events: Seq<LoadProgress>) -> bool {
    let count = next + events.len() - 1;
    &&& events.len() >= 1
    &&& total matches Some(agreed) ==> agreed == count
    &&& forall|k: int|
        0 <= k < events.len() - 1 ==> #[trigger] events[k] == (LoadProgress::TensorLoaded {
            current_tensor: (next + k) as usize,
            tensor_count: count as usize,
        })
    &&& events[events.len() - 1] matches LoadProgress::Loaded { tensor_count, .. }
        && tensor_count == count
}

proof fn lemma_remaining_load(next: usize, total: Option<usize>, events: Seq<LoadProgress>)
    ensures
        (LoadPhase::LoadingTensors { next, total }).after_all(events) == Ok::<
            LoadPhase,
            ProtocolViolation,
        >(LoadPhase::Finished) <==> is_remaining_load(next, total, events),
    decreases events.len(),
{
    let phase = LoadPhase::LoadingTensors { next, total };
    if events.len() == 0 {
    } else {
        let rest = events.drop_first();
        match phase.after(events[0]) {
            Ok(LoadPhase::LoadingTensors { next: later, total: agreed }) => {
                lemma_remaining_load(later, agreed, rest);
                assert(forall|k: int| 0 <= k < rest.len() ==> rest[k] == events[k + 1]);
                if is_remaining_load(later, agreed, rest) {
                    assert forall|k: int| 0 <= k < events.len() - 1 implies #[trigger] events[k]
                        == (LoadProgress::TensorLoaded {
                        current_tensor: (next + k) as usize,
                        tensor_count: (next + events.len() - 1) as usize,
                    }) by {
                        if k > 0 {
                            assert(rest[k - 1] == events[k]);
                        }
                    }
                }
                if is_remaining_load(next, total, events) {
                    assert forall|k: int| 0 <= k < rest.len() - 1 implies #[trigger] rest[k] == (
                    LoadProgress::TensorLoaded {
                        current_tensor: (later + k) as usize,
                        tensor_count: (later + rest.len() - 1) as usize,
                    }) by {
                        assert(rest[k] == events[k + 1]);
                    }
                }
            },
            Ok(LoadPhase::Finished) => {
                assert(rest.len() > 0 ==> LoadPhase::Finished.after_all(rest) is Err);
                if rest.len() > 0 && is_remaining_load(next, total, events) {
                    assert(events[0] is TensorLoaded);
                }
            },
            Ok(_) => {},
            Err(_) => {
                if is_remaining_load(next, total, events) {
                    if events.len() > 1 {
                        assert(events[0] is TensorLoaded);
                    }
                }
            },
        }
    }
}

/// A run of events is accepted from the start to the end, one event after the
/// other, exactly when it is a whole load.
pub proof fn lemma_accepts_complete_loads(events: Seq<LoadProgress>)
    ensures
        LoadPhase::Started.after_all(events) == Ok::<LoadPhase, ProtocolViolation>(
            LoadPhase::Finished,
        ) <==> is_complete_load(events),
{
    reveal_with_fuel(LoadPhase::after_all, 3);
    if events.len() >= 1 {
        let rest = events.drop_first();
        if LoadPhase::Started.after(events[0]) is Ok {
            if rest.len() >= 1 {
                let tail = rest.drop_first();
                assert(rest[0] == events[1]);
                if LoadPhase::HyperparametersKnown.after(rest[0]) is Ok {
                    lemma_remaining_load(0, None, tail);
                    assert(forall|k: int| 0 <= k < tail.len() ==> tail[k] == events[k + 2]);
                    if is_remaining_load(0, None, tail) {
                        assert forall|k: int| 2 <= k < events.len() - 1 implies #[trigger] events[k]
                            == (LoadProgress::TensorLoaded {
                            current_tensor: (k - 2) as usize,
                            tensor_count: (events.len() - 3) as usize,
                        }) by {
                            assert(tail[k - 2] == events[k]);
                        }
                    }
                    if is_complete_load(events) {
                        assert forall|k: int| 0 <= k < tail.len() - 1 implies #[trigger] tail[k]
                            == (LoadProgress::TensorLoaded {
                            current_tensor: (0 + k) as usize,
                            tensor_count: (0 + tail.len() - 1) as usize,
                        }) by {
                            assert(tail[k] == events[k + 2]);
                        }
                    }
                }
            }
        }
    }
}

/// The verdict on a recorded run of events: the first breach in it, if there
/// is one; a run that breaks off before the terminal event is out of order.
pub open spec fn load_verdict(events: Seq<LoadProgress>) -> Result<(), ProtocolViolation> {
    match LoadPhase::Started.after_all(events) {
        Ok(LoadPhase::Finished) => Ok(()),
        Ok(_) => Err(ProtocolViolation::OutOfOrder),
        Err(violation) => Err(violation),
    }
}

/// Checks a recorded run of events against the protocol.
pub fn check_load(events: &Vec<LoadProgress>) -> (outcome: Result<(), ProtocolViolation>)
    ensures
        outcome == load_verdict(events@),
        outcome is Ok <==> is_complete_load(events@),
{
    let mut phase = LoadPhase::Started;
    let mut i: usize = 0;
    assert(events@.skip(0) == events@);
    while i < events.len()
        invariant
            0 <= i <= events.len(),
            LoadPhase::Started.after_all(events@) == phase.after_all(events@.skip(i as int)),
        decreases events.len() - i,
    {
        let ghost rest = events@.skip(i as int);
        assert(rest[0] == events@[i as int]);
        assert(rest.drop_first() == events@.skip(i + 1));
        match phase.observe(events[i]) {
            Ok(next) => {
                phase = next;
            },
            Err(violation) => {
                proof {
                    lemma_accepts_complete_loads(events@);
                }
                return Err(violation);
            },
        }
        i += 1;
    }
    proof {
        lemma_accepts_complete_loads(events@);
        assert(events@.skip(i as int).len() == 0);
    }
    match phase {
        LoadPhase::Finished => Ok(()),
        _ => Err(ProtocolViolation::OutOfOrder),
    }
}

} // verus!
