use llm_cli::load::{
    check_load, progress_report, LoadPhase, LoadProgress, LogLevel, ModelLoad, ProgressReport,
    ProtocolViolation, TENSOR_REPORT_STRIDE,
};
use std::path::PathBuf;

fn tensor(current_tensor: usize, tensor_count: usize) -> LoadProgress {
    LoadProgress::TensorLoaded { current_tensor, tensor_count }
}

fn load_of(tensors: usize) -> Vec<LoadProgress> {
    let mut events = vec![LoadProgress::HyperparametersLoaded, LoadProgress::ContextSize { bytes: 4096 }];
    for current in 0..tensors {
        events.push(tensor(current, tensors));
    }
    events.push(LoadProgress::Loaded { byte_size: 1 << 20, tensor_count: tensors });
    events
}

#[test]
fn a_model_of_three_tensors_loads_in_six_events() {
    let events = vec![
        LoadProgress::HyperparametersLoaded,
        LoadProgress::ContextSize { bytes: 1024 },
        tensor(0, 3),
        tensor(1, 3),
        tensor(2, 3),
        LoadProgress::Loaded { byte_size: 5000, tensor_count: 3 },
    ];
    assert_eq!(check_load(&events), Ok(()));
    assert_eq!(events, {
        let mut expected = load_of(3);
        expected[1] = LoadProgress::ContextSize { bytes: 1024 };
        expected[5] = LoadProgress::Loaded { byte_size: 5000, tensor_count: 3 };
        expected
    });
}

#[test]
fn the_phases_follow_the_events() {
    let phase = LoadPhase::Started;
    let phase = phase.observe(LoadProgress::HyperparametersLoaded).unwrap();
    assert_eq!(phase, LoadPhase::HyperparametersKnown);
    let phase = phase.observe(LoadProgress::ContextSize { bytes: 7 }).unwrap();
    assert_eq!(phase, LoadPhase::LoadingTensors { next: 0, total: None });
    let phase = phase.observe(tensor(0, 2)).unwrap();
    assert_eq!(phase, LoadPhase::LoadingTensors { next: 1, total: Some(2) });
    let phase = phase.observe(tensor(1, 2)).unwrap();
    assert_eq!(phase, LoadPhase::LoadingTensors { next: 2, total: Some(2) });
    let phase = phase.observe(LoadProgress::Loaded { byte_size: 9, tensor_count: 2 }).unwrap();
    assert_eq!(phase, LoadPhase::Finished);
    assert_eq!(
        phase.observe(LoadProgress::HyperparametersLoaded),
        Err(ProtocolViolation::OutOfOrder)
    );
}

#[test]
fn loads_of_any_size_are_accepted() {
    for tensors in [0, 1, 2, 8, 100] {
        assert_eq!(check_load(&load_of(tensors)), Ok(()));
    }
}

#[test]
fn events_out_of_order_are_refused() {
    assert_eq!(check_load(&Vec::new()), Err(ProtocolViolation::OutOfOrder));
    assert_eq!(
        check_load(&vec![LoadProgress::ContextSize { bytes: 1 }]),
        Err(ProtocolViolation::OutOfOrder)
    );
    let mut twice = load_of(2);
    twice.insert(1, LoadProgress::HyperparametersLoaded);
    assert_eq!(check_load(&twice), Err(ProtocolViolation::OutOfOrder));
    let mut swapped = load_of(3);
    swapped.swap(2, 3);
    assert_eq!(check_load(&swapped), Err(ProtocolViolation::OutOfOrder));
    let mut repeated = load_of(3);
    repeated[3] = tensor(0, 3);
    assert_eq!(check_load(&repeated), Err(ProtocolViolation::OutOfOrder));
    let mut beyond = load_of(1);
    beyond.insert(3, tensor(1, 1));
    assert_eq!(check_load(&beyond), Err(ProtocolViolation::OutOfOrder));
    let mut cut = load_of(3);
    cut.pop();
    assert_eq!(check_load(&cut), Err(ProtocolViolation::OutOfOrder));
    let mut longer = load_of(1);
    longer.push(LoadProgress::Loaded { byte_size: 1, tensor_count: 1 });
    assert_eq!(check_load(&longer), Err(ProtocolViolation::OutOfOrder));
}

#[test]
fn tensor_counts_that_disagree_are_refused() {
    let mut changed = load_of(3);
    changed[3] = tensor(1, 4);
    assert_eq!(check_load(&changed), Err(ProtocolViolation::TensorCountMismatch));
    let mut wrong_end = load_of(3);
    wrong_end[5] = LoadProgress::Loaded { byte_size: 1, tensor_count: 4 };
    assert_eq!(check_load(&wrong_end), Err(ProtocolViolation::TensorCountMismatch));
    let mut early_end = load_of(3);
    early_end.remove(4);
    assert_eq!(check_load(&early_end), Err(ProtocolViolation::TensorCountMismatch));
    let no_tensors = vec![
        LoadProgress::HyperparametersLoaded,
        LoadProgress::ContextSize { bytes: 1 },
        LoadProgress::Loaded { byte_size: 1, tensor_count: 2 },
    ];
    assert_eq!(check_load(&no_tensors), Err(ProtocolViolation::TensorCountMismatch));
}

#[test]
fn every_eighth_tensor_is_reported() {
    assert_eq!(TENSOR_REPORT_STRIDE, 8);
    for current in 0..40 {
        let report = progress_report(tensor(current, 40));
        if (current + 1) % 8 == 0 {
            assert_eq!(report, Some(ProgressReport::Tensors { loaded: current + 1, tensor_count: 40 }));
        } else {
            assert_eq!(report, None);
        }
    }
    assert_eq!(progress_report(tensor(7, 291)), Some(ProgressReport::Tensors { loaded: 8, tensor_count: 291 }));
    assert_eq!(progress_report(tensor(usize::MAX, 1)), None);
    assert_eq!(progress_report(tensor(usize::MAX - 1, 1)), None);
}

#[test]
fn the_other_events_are_always_reported() {
    assert_eq!(
        progress_report(LoadProgress::HyperparametersLoaded),
        Some(ProgressReport::Hyperparameters)
    );
    assert_eq!(
        progress_report(LoadProgress::ContextSize { bytes: 2048 }),
        Some(ProgressReport::ContextSize { bytes: 2048 })
    );
    assert_eq!(
        progress_report(LoadProgress::Loaded { byte_size: 77, tensor_count: 3 }),
        Some(ProgressReport::Complete { byte_size: 77, tensor_count: 3 })
    );
}

#[test]
fn hyperparameters_are_a_detail() {
    assert_eq!(ProgressReport::Hyperparameters.level(), LogLevel::Debug);
    assert_eq!(ProgressReport::ContextSize { bytes: 1 }.level(), LogLevel::Info);
    assert_eq!(ProgressReport::Tensors { loaded: 8, tensor_count: 9 }.level(), LogLevel::Info);
    assert_eq!(ProgressReport::Complete { byte_size: 1, tensor_count: 1 }.level(), LogLevel::Info);
}

#[test]
fn mapping_is_preferred_unless_switched_off() {
    let mut load = ModelLoad { model_path: PathBuf::from("model.bin"), num_ctx_tokens: 2048, no_mmap: false };
    assert!(load.prefer_mmap());
    load.no_mmap = true;
    assert!(!load.prefer_mmap());
}
