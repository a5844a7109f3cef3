use elgate_core::arch::{create_thread_builder, detect_cpu_topology, select_runtime_mode, RuntimeMode};

#[test]
fn test_detect_cpu_topology() {
    let cpu_info = detect_cpu_topology(None);
    println!("Detected {} logical cores", cpu_info.logical_cores());
    assert!(cpu_info.logical_cores() > 0);
}

#[test]
fn mod_test_select_runtime_mode() {
    let cpu_info = detect_cpu_topology(None);
    let mode = select_runtime_mode(&cpu_info);
    println!("Selected runtime mode: {}", mode.debug_string());

    // If we have more than one core, we should get PinnedSharded mode
    if cpu_info.logical_cores() > 1 {
        assert!(matches!(mode, RuntimeMode::PinnedSharded { .. }));
    } else {
        assert!(matches!(mode, RuntimeMode::SingleThread));
    }
}

#[test]
fn create_thread_builder_starts_at_first_worker() {
    let cpu_info = elgate_core::arch::CpuInfo::mock(4, 1);
    let mode = RuntimeMode::PinnedSharded { worker_count: 4, numa_aware: true };
    let mut builder = create_thread_builder(mode, &cpu_info);
    assert_eq!(builder.plan_next_worker().core_id, Some(0));
    assert_eq!(builder.plan_next_worker().core_id, Some(1));
}
