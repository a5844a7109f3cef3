use elgate_core::arch::thread_builder::{
    pin_choice, pin_planned_worker, pin_thread_to_core, pinning_outcome, PinningResult,
    ThreadBuilder, WorkerPlan,
};
use elgate_core::arch::{CpuInfo, RuntimeMode};

#[test]
fn test_thread_builder_single() {
    let cpu_info = CpuInfo::detect(None);
    let mode = RuntimeMode::SingleThread;
    let mut builder = ThreadBuilder::new(mode, &cpu_info);

    let worker = builder.plan_next_worker();

    // In single thread mode, pinning should not be attempted
    assert_eq!(pin_planned_worker(worker.core_id).0, PinningResult::Unsupported);
    assert_eq!(worker.core_id, None);
    assert!(!worker.stub);
}

#[test]
fn test_thread_builder_pinned() {
    let cpu_info = CpuInfo::mock(4, 1);
    let mode = RuntimeMode::PinnedSharded {
        worker_count: 2,
        numa_aware: true,
    };
    let mut builder = ThreadBuilder::new(mode, &cpu_info);

    for _ in 0..2 {
        let worker = builder.plan_next_worker();

        // We should have a core assignment
        assert!(worker.core_id.is_some());

        // We shouldn't attempt pinning to cores we don't have
        assert!(worker.core_id.unwrap() < cpu_info.logical_cores());
    }
}

#[test]
fn test_thread_builder_test_stub() {
    let cpu_info = CpuInfo::detect(None);
    let mode = RuntimeMode::TestStub;
    let mut builder = ThreadBuilder::new(mode, &cpu_info);

    let worker = builder.plan_next_worker();

    // TestStub mode doesn't try to pin
    assert_eq!(pin_planned_worker(worker.core_id).0, PinningResult::Unsupported);
    assert_eq!(worker.core_id, None);
    assert!(worker.stub);
}

#[test]
fn pinned_workers_take_cores_in_turn() {
    let cpu_info = CpuInfo::mock(3, 0);
    let mut builder = ThreadBuilder::new(RuntimeMode::PinnedSharded { worker_count: 3, numa_aware: false }, &cpu_info);
    let cores: Vec<Option<usize>> = (0..7).map(|_| builder.plan_next_worker().core_id).collect();
    assert_eq!(cores, vec![Some(0), Some(1), Some(2), Some(0), Some(1), Some(2), Some(0)]);
}

#[test]
fn forced_single_is_never_pinned() {
    let cpu_info = CpuInfo::mock(4, 2);
    let mut builder = ThreadBuilder::new(RuntimeMode::ForcedSingle, &cpu_info);
    for _ in 0..3 {
        assert_eq!(
            builder.plan_next_worker(),
            WorkerPlan { core_id: None, stub: false }
        );
    }
}

#[test]
fn pin_choice_wraps_around() {
    assert_eq!(pin_choice(1, &vec![0, 1, 2]), Some(1));
    assert_eq!(pin_choice(5, &vec![0, 1, 2]), Some(2));
    assert_eq!(pin_choice(0, &vec![]), None);
}

#[test]
fn pinning_outcomes() {
    let cores = Some(vec![0, 2, 4, 6]);
    assert_eq!(pinning_outcome(1, &cores, true), PinningResult::Success);
    assert_eq!(pinning_outcome(1, &cores, false), PinningResult::Failed);
    assert_eq!(pinning_outcome(6, &cores, true), PinningResult::SuccessDifferentCore(2));
    assert_eq!(pinning_outcome(6, &cores, false), PinningResult::Failed);
    assert_eq!(pinning_outcome(0, &Some(vec![]), true), PinningResult::Failed);
    assert_eq!(pinning_outcome(0, &None, true), PinningResult::Unsupported);
}

#[test]
fn pinning_the_test_thread_reports_an_outcome() {
    let r = pin_thread_to_core(0).result;
    assert!(matches!(
        r,
        PinningResult::Success
            | PinningResult::SuccessDifferentCore(_)
            | PinningResult::Unsupported
            | PinningResult::Failed
    ));
}

#[test]
fn planned_worker_pins_to_its_core() {
    let (r, attempt) = pin_planned_worker(Some(0));
    assert_eq!(attempt.map(|a| a.result), Some(r));
    assert!(matches!(
        r,
        PinningResult::Success
            | PinningResult::SuccessDifferentCore(_)
            | PinningResult::Unsupported
            | PinningResult::Failed
    ));
}

#[test]
fn pin_attempt_hands_over_the_chosen_core() {
    let attempt = pin_thread_to_core(1);
    let expected = pinning_outcome(
        1,
        attempt.cores.ids(),
        attempt.request.as_ref().map(|r| r.accepted()).unwrap_or(false),
    );
    assert_eq!(attempt.result, expected);
    match attempt.cores.ids() {
        Some(ids) if !ids.is_empty() => assert!(attempt.request.is_some()),
        _ => assert!(attempt.request.is_none()),
    }
}
