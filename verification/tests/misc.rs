use elgate_core::disk::fallback::{DiskAction, DiskConfig, DiskOperation, DiskOperationType};
use elgate_core::net::fallback::{MissingInput, NetworkConfig, NetworkOperationType, NetworkResultKind};
use std::path::PathBuf;

#[test]
fn it_works() {
    assert_eq!(2 + 2, 4);
}

#[test]
fn disk_config_defaults() {
    let c = DiskConfig::default();
    assert_eq!(c.worker_threads, 2);
    assert!(c.pin_threads);
    assert_eq!(c.buffer_size, 128 * 1024);
    assert_eq!(c.numa_node, None);
    assert_eq!(c.queue_capacity(), 64);

    let u = elgate_core::disk::io_uring::DiskConfig::default();
    assert_eq!(u.queue_depth, 256);
    assert_eq!(u.worker_threads, 2);
    assert_eq!(u.buffer_size, 128 * 1024);
}

#[test]
fn network_config_defaults() {
    let c = NetworkConfig::default();
    assert_eq!(c.worker_threads, 2);
    assert!(c.pin_threads);
    assert_eq!(c.buffer_size, 64 * 1024);
    assert_eq!(c.numa_node, None);
    assert_eq!(NetworkConfig { worker_threads: 1, ..c }.queue_capacity(), 32);

    let u = elgate_core::net::io_uring::NetworkConfig::default();
    assert_eq!(u.queue_depth, 256);
    assert_eq!(u.buffer_size, 64 * 1024);
}

fn disk_op(op_type: DiskOperationType, data: Option<Vec<u8>>) -> DiskOperation {
    DiskOperation { op_type, path: PathBuf::from("/tmp/elgate_disk_op"), offset: 0, data }
}

#[test]
fn disk_actions() {
    assert_eq!(disk_op(DiskOperationType::Read, None).action(), DiskAction::ReadChunk);
    assert_eq!(disk_op(DiskOperationType::Write, Some(vec![1])).action(), DiskAction::WriteData);
    assert_eq!(disk_op(DiskOperationType::Write, None).action(), DiskAction::RejectNoData);
    assert_eq!(disk_op(DiskOperationType::Sync, None).action(), DiskAction::SyncFile);
    assert_eq!(disk_op(DiskOperationType::Close, None).action(), DiskAction::Nothing);
}

#[test]
fn network_inputs() {
    assert_eq!(NetworkOperationType::Accept.missing_input(false, true, true), Some(MissingInput::Fd));
    assert_eq!(NetworkOperationType::Accept.missing_input(true, false, false), None);
    assert_eq!(NetworkOperationType::Connect.missing_input(true, false, true), Some(MissingInput::Addr));
    assert_eq!(NetworkOperationType::Connect.missing_input(false, true, false), None);
    assert_eq!(NetworkOperationType::Read.missing_input(false, false, false), Some(MissingInput::Fd));
    assert_eq!(NetworkOperationType::Write.missing_input(false, false, false), Some(MissingInput::Fd));
    assert_eq!(NetworkOperationType::Write.missing_input(true, false, false), Some(MissingInput::Data));
    assert_eq!(NetworkOperationType::Write.missing_input(true, false, true), None);
    assert_eq!(NetworkOperationType::Close.missing_input(true, false, false), None);
}

#[test]
fn network_results_match_operations() {
    assert!(NetworkOperationType::Read.expects(NetworkResultKind::Read));
    assert!(!NetworkOperationType::Read.expects(NetworkResultKind::Write));
    assert!(NetworkOperationType::Close.expects(NetworkResultKind::Close));
    assert!(!NetworkOperationType::Accept.expects(NetworkResultKind::Connect));
}
