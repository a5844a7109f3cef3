use elgate_core::arch::{CpuInfo, RuntimeMode};

#[test]
fn runtime_mode_test_select_runtime_mode() {
    // Test single-core system
    let cpu_info = CpuInfo::mock(1, 0);
    let mode = RuntimeMode::select_for_system(&cpu_info);
    assert!(matches!(mode, RuntimeMode::SingleThread));

    // Test dual-core system
    let cpu_info = CpuInfo::mock(2, 0);
    let mode = RuntimeMode::select_for_system(&cpu_info);
    assert!(matches!(
        mode,
        RuntimeMode::PinnedSharded {
            worker_count: 2,
            ..
        }
    ));

    // Test 8-core system
    let cpu_info = CpuInfo::mock(8, 0);
    let mode = RuntimeMode::select_for_system(&cpu_info);
    assert!(matches!(
        mode,
        RuntimeMode::PinnedSharded {
            worker_count: 7,
            ..
        }
    ));

    // Test 8-core system with 2 NUMA nodes
    let cpu_info = CpuInfo::mock(8, 2);
    let mode = RuntimeMode::select_for_system(&cpu_info);
    if let RuntimeMode::PinnedSharded {
        worker_count,
        numa_aware,
    } = mode
    {
        assert_eq!(worker_count, 7);
        assert!(numa_aware);
    } else {
        panic!("Expected PinnedSharded mode");
    }
}

#[test]
fn test_runtime_mode_properties() {
    let single = RuntimeMode::SingleThread;
    assert_eq!(single.worker_count(), 1);
    assert!(!single.is_numa_aware());
    assert!(!single.supports_pinning());

    let pinned = RuntimeMode::PinnedSharded {
        worker_count: 4,
        numa_aware: true,
    };
    assert_eq!(pinned.worker_count(), 4);
    assert!(pinned.is_numa_aware());
    assert!(pinned.supports_pinning());

    let forced = RuntimeMode::ForcedSingle;
    assert_eq!(forced.worker_count(), 1);
    assert!(!forced.is_numa_aware());
    assert!(!forced.supports_pinning());

    let test_stub = RuntimeMode::TestStub;
    assert_eq!(test_stub.worker_count(), 1);
    assert!(!test_stub.is_numa_aware());
    assert!(!test_stub.supports_pinning());
}

#[test]
fn test_runtime_mode_description() {
    let single = RuntimeMode::SingleThread;
    assert!(single.description().contains("Single-threaded"));

    let pinned = RuntimeMode::PinnedSharded {
        worker_count: 4,
        numa_aware: true,
    };
    let desc = pinned.description();
    assert!(desc.contains("Pinned sharded"));
    assert!(desc.contains("4 workers"));
    assert!(desc.contains("NUMA-aware: yes"));

    let forced = RuntimeMode::ForcedSingle;
    assert!(forced.description().contains("Forced single-threaded"));

    let test_stub = RuntimeMode::TestStub;
    assert!(test_stub.description().contains("Test stub"));
}

#[test]
fn descriptions_in_full() {
    assert_eq!(RuntimeMode::SingleThread.description(), "Single-threaded mode");
    assert_eq!(
        RuntimeMode::PinnedSharded { worker_count: 12, numa_aware: false }.description(),
        "Pinned sharded mode with 12 workers (NUMA-aware: no)"
    );
    assert_eq!(RuntimeMode::ForcedSingle.description(), "Forced single-threaded mode");
    assert_eq!(RuntimeMode::TestStub.description(), "Test stub mode");
}

#[test]
fn debug_strings() {
    assert_eq!(RuntimeMode::SingleThread.debug_string(), "SingleThread");
    assert_eq!(
        RuntimeMode::PinnedSharded { worker_count: 4, numa_aware: true }.debug_string(),
        "PinnedSharded(workers=4, numa=true)"
    );
    assert_eq!(
        RuntimeMode::PinnedSharded { worker_count: 0, numa_aware: false }.debug_string(),
        "PinnedSharded(workers=0, numa=false)"
    );
    assert_eq!(RuntimeMode::ForcedSingle.debug_string(), "ForcedSingle");
    assert_eq!(RuntimeMode::TestStub.debug_string(), "TestStub");
}

#[test]
fn selection_by_core_count() {
    for (cores, workers) in [(2usize, 2usize), (3, 3), (4, 4), (5, 4), (16, 15)] {
        let mode = RuntimeMode::select_for_system(&CpuInfo::mock(cores, 0));
        assert!(mode == RuntimeMode::PinnedSharded { worker_count: workers, numa_aware: false });
        assert!(mode.worker_count() <= cores);
    }
    let mode = RuntimeMode::select_for_system(&CpuInfo::mock(0, 0));
    assert!(mode == RuntimeMode::SingleThread);
}

#[test]
fn numa_aware_modes_pin() {
    let mode = RuntimeMode::select_for_system(&CpuInfo::mock(4, 2));
    assert!(mode.is_numa_aware());
    assert!(mode.supports_pinning());
}
