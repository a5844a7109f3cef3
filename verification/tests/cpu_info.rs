use elgate_core::arch::cpu_info::{CpuInfo, NumaNode};

#[test]
fn test_cpu_info_detect() {
    let info = CpuInfo::detect(None);
    println!("Detected CPU info: {}", info.debug_string());

    // At minimum, we should have at least one core
    assert!(info.logical_cores() > 0);

    // Should have at least one NUMA node (even if it's a fallback)
    assert!(!info.numa_nodes().is_empty());
}

#[test]
fn test_parse_cpu_list() {
    assert_eq!(CpuInfo::parse_cpu_list("0-2,4,6-8"), vec![0, 1, 2, 4, 6, 7, 8]);
    assert_eq!(CpuInfo::parse_cpu_list("0"), vec![0]);
    assert_eq!(CpuInfo::parse_cpu_list("0-3"), vec![0, 1, 2, 3]);
    assert_eq!(CpuInfo::parse_cpu_list(""), Vec::<usize>::new());
}

#[test]
fn test_mock_cpu_info() {
    // Test single NUMA node
    let info = CpuInfo::mock(8, 1);
    assert_eq!(info.logical_cores(), 8);
    assert_eq!(info.numa_nodes().len(), 1);
    assert_eq!(info.numa_nodes()[0].cores.len(), 8);

    // Test multiple NUMA nodes
    let info = CpuInfo::mock(8, 2);
    assert_eq!(info.logical_cores(), 8);
    assert_eq!(info.numa_nodes().len(), 2);
    assert_eq!(info.numa_nodes()[0].cores.len(), 4);
    assert_eq!(info.numa_nodes()[1].cores.len(), 4);

    // Test uneven distribution
    let info = CpuInfo::mock(7, 2);
    assert_eq!(info.logical_cores(), 7);
    assert_eq!(info.numa_nodes().len(), 2);
    assert_eq!(info.numa_nodes()[0].cores.len(), 4);
    assert_eq!(info.numa_nodes()[1].cores.len(), 3);
}

#[test]
fn test_get_core_for_worker() {
    // Test with 8 cores, 2 NUMA nodes
    let info = CpuInfo::mock(8, 2);

    // First 4 workers should get cores from the first NUMA node
    assert_eq!(info.get_core_for_worker(0), 0);
    assert_eq!(info.get_core_for_worker(1), 1);
    assert_eq!(info.get_core_for_worker(2), 2);
    assert_eq!(info.get_core_for_worker(3), 3);

    // Next 4 workers should get cores from the second NUMA node
    assert_eq!(info.get_core_for_worker(4), 4);
    assert_eq!(info.get_core_for_worker(5), 5);
    assert_eq!(info.get_core_for_worker(6), 6);
    assert_eq!(info.get_core_for_worker(7), 7);

    // Additional workers wrap around within their NUMA node
    assert_eq!(info.get_core_for_worker(8), 0);
    assert_eq!(info.get_core_for_worker(9), 1);
}

#[test]
fn parse_cpu_list_trims_and_skips_bad_parts() {
    assert_eq!(CpuInfo::parse_cpu_list("0-1\n"), vec![0, 1]);
    assert_eq!(CpuInfo::parse_cpu_list(" 3 , 5 - 6 "), vec![3, 5, 6]);
    assert_eq!(CpuInfo::parse_cpu_list("x,2,1-2-3,4-x,+7"), vec![2, 7]);
    assert_eq!(CpuInfo::parse_cpu_list("5-3"), Vec::<usize>::new());
    assert_eq!(CpuInfo::parse_cpu_list(",,"), Vec::<usize>::new());
}

#[test]
fn mock_nodes_are_consecutive() {
    let info = CpuInfo::mock(7, 3);
    assert_eq!(info.numa_nodes()[0], NumaNode::new(0, vec![0, 1, 2]));
    assert_eq!(info.numa_nodes()[1], NumaNode::new(1, vec![3, 4]));
    assert_eq!(info.numa_nodes()[2], NumaNode::new(2, vec![5, 6]));
    assert_eq!(info.physical_cores(), Some(3));
    assert!(info.is_numa_available());

    let flat = CpuInfo::mock(3, 0);
    assert_eq!(flat.numa_nodes().len(), 1);
    assert_eq!(flat.numa_nodes()[0], NumaNode::new(0, vec![0, 1, 2]));
    assert!(!flat.is_numa_available());
}

#[test]
fn round_robin_on_mock_topologies() {
    for (l, m) in [(8usize, 2usize), (7, 3), (5, 0), (3, 5), (1, 1)] {
        let info = CpuInfo::mock(l, m);
        for w in 0..3 * l {
            assert_eq!(info.get_core_for_worker(w), w % l);
        }
    }
}

#[test]
fn get_core_for_worker_follows_numa_node_order() {
    let listing = vec![
        ("node1".to_string(), Some("4-5".to_string())),
        ("node0".to_string(), Some("0,2".to_string())),
    ];
    let info = CpuInfo::from_system(6, 3, Some(listing));
    assert!(info.is_numa_available());
    assert_eq!(info.get_core_for_worker(0), 4);
    assert_eq!(info.get_core_for_worker(1), 5);
    assert_eq!(info.get_core_for_worker(2), 0);
    assert_eq!(info.get_core_for_worker(3), 2);
    // Beyond the cores of all nodes: round-robin over the logical cores.
    assert_eq!(info.get_core_for_worker(4), 4);
    assert_eq!(info.get_core_for_worker(9), 3);
}

#[test]
fn from_system_reads_numa_listing() {
    let listing = vec![
        ("node0".to_string(), Some("0-3\n".to_string())),
        ("possible".to_string(), Some("0-1".to_string())),
        ("node1".to_string(), None),
        ("nodex".to_string(), Some("7".to_string())),
        ("nodenode2".to_string(), Some("8,9".to_string())),
        ("has_cpu".to_string(), Some("0".to_string())),
    ];
    let info = CpuInfo::from_system(16, 0, Some(listing));
    assert_eq!(info.logical_cores(), 16);
    assert_eq!(info.physical_cores(), None);
    assert!(info.is_numa_available());
    assert_eq!(
        info.numa_nodes().to_vec(),
        vec![NumaNode::new(0, vec![0, 1, 2, 3]), NumaNode::new(2, vec![8, 9])]
    );
}

#[test]
fn from_system_falls_back_to_one_node() {
    let info = CpuInfo::from_system(4, 2, None);
    assert!(!info.is_numa_available());
    assert_eq!(info.physical_cores(), Some(2));
    assert_eq!(info.numa_nodes().to_vec(), vec![NumaNode::new(0, vec![0, 1, 2, 3])]);

    let info = CpuInfo::from_system(2, 1, Some(vec![("online".to_string(), Some("0-1".to_string()))]));
    assert!(!info.is_numa_available());
    assert_eq!(info.numa_nodes()[0].core_count(), 2);
}

#[test]
fn cpu_info_debug_string() {
    let info = CpuInfo::mock(8, 2);
    assert_eq!(
        info.debug_string(),
        "CpuInfo { logical_cores: 8, physical_cores: Some(4), numa_nodes: 2, numa_available: true }"
    );
    let info = CpuInfo::from_system(1, 0, None);
    assert_eq!(
        info.debug_string(),
        "CpuInfo { logical_cores: 1, physical_cores: None, numa_nodes: 1, numa_available: false }"
    );
}

#[test]
fn cloned_cpu_info_keeps_topology() {
    let info = CpuInfo::mock(6, 2);
    let copy = info.clone();
    assert_eq!(copy.logical_cores(), 6);
    assert_eq!(copy.numa_nodes().to_vec(), info.numa_nodes().to_vec());
}
