use elgate_core::arch::CpuInfo;
use elgate_core::ring::buffer::{RingError, SlotWait, WriteStep};
use elgate_core::ring::header::HEADER_SIZE;
use elgate_core::ring::{
    get_default_ring_path, OperationKind, RingBuffer, RingBufferOptions, DEFAULT_RING_PATH,
    DEFAULT_RING_SIZE, DEFAULT_SLOT_SIZE,
};
use memmap2::MmapMut;
use std::path::PathBuf;

fn options(path: &str, size: usize, slot_size: usize) -> RingBufferOptions {
    RingBufferOptions { path: PathBuf::from(path), size, slot_size }
}

fn create(opts: &RingBufferOptions) -> RingBuffer {
    let map = MmapMut::map_anon(opts.size).unwrap();
    RingBuffer::create_in(map, opts.clone(), 0)
}

/// Writes as the engine does: retries while the ring is full, without
/// sleeping.
fn write(ring: &mut RingBuffer, kind: OperationKind, data: &[u8]) -> Result<usize, RingError> {
    let mut wait = SlotWait::new();
    loop {
        match ring.write_step(&mut wait, kind, data) {
            WriteStep::Written(idx) => return Ok(idx),
            WriteStep::Wait(_) => {}
            WriteStep::Failed(e) => return Err(e),
        }
    }
}

/// The bytes of a ring's region, to open a second view of it.
fn region_copy(ring_bytes: &[u8]) -> MmapMut {
    let mut map = MmapMut::map_anon(ring_bytes.len()).unwrap();
    map.copy_from_slice(ring_bytes);
    map
}

#[test]
fn test_ring_buffer_creation() {
    let options = options("/tmp/elgate_test_ring_creation", 1024 * 1024, 4096);

    // Create a new ring buffer
    let ring = create(&options);

    // Check the ring buffer properties
    assert_eq!(ring.size(), 1024 * 1024);
    assert_eq!(ring.slot_size(), 4096);
    assert!(ring.slot_count() > 0);
    assert_eq!(ring.active_producers(), 1);
    assert_eq!(ring.operations_completed(), 0);
    assert!(ring.is_producer());
}

#[test]
fn test_ring_buffer_write_read() {
    let options = options("/tmp/elgate_test_ring_write_read", 1024 * 1024, 4096);
    let mut ring = create(&options);

    // Write data to the ring buffer
    let data = b"Hello, world!";
    let _slot_idx = write(&mut ring, OperationKind::DiskWrite, data).unwrap();

    // Read data from the ring buffer
    let result = ring.read().unwrap();
    assert!(result.is_some());

    let (kind, read_data) = result.unwrap();
    assert_eq!(kind, OperationKind::DiskWrite);
    assert_eq!(read_data, data);

    // Check that operations completed was incremented
    assert_eq!(ring.operations_completed(), 1);
}

#[test]
fn test_ring_buffer_multiple_writes() {
    let options = options("/tmp/elgate_test_ring_multiple_writes", 1024 * 1024, 4096);
    let mut ring = create(&options);

    // Write multiple operations
    for i in 0..10 {
        let data = format!("Operation {}", i).into_bytes();
        write(&mut ring, OperationKind::DiskWrite, &data).unwrap();
    }

    // Read all operations
    for i in 0..10 {
        let result = ring.read().unwrap();
        assert!(result.is_some());

        let (kind, read_data) = result.unwrap();
        assert_eq!(kind, OperationKind::DiskWrite);
        assert_eq!(read_data, format!("Operation {}", i).into_bytes());
    }

    // No more operations should be available
    assert!(ring.read().unwrap().is_none());

    // Check that operations completed was incremented
    assert_eq!(ring.operations_completed(), 10);
}

#[test]
fn test_ring_buffer_numa_aware() {
    let options = options("/tmp/elgate_test_ring_numa", 1024 * 1024, 4096);

    // Whether memory is bound to node 0 depends on the topology.
    let flat = CpuInfo::mock(8, 0);
    assert_eq!(RingBuffer::numa_binding(&flat, 0), None);
    let numa = CpuInfo::mock(8, 2);
    assert_eq!(RingBuffer::numa_binding(&numa, 0), Some(1));
    assert_eq!(RingBuffer::numa_binding(&numa, 1), Some(2));
    assert_eq!(RingBuffer::numa_binding(&numa, 2), None);

    // Created for node 0, as a binding to node 0 asks: the header records it.
    let map = MmapMut::map_anon(options.size).unwrap();
    let mut ring = RingBuffer::create_in(map, options.clone(), 0);
    assert_eq!(ring.size(), 1024 * 1024);
    assert_eq!(ring.slot_size(), 4096);
    assert!(ring.slot_count() > 0);
    assert_eq!(ring.active_producers(), 1);
    assert_eq!(ring.numa_node(), 0);

    // Test write and read on the ring buffer
    let data = b"NUMA-optimized data";
    let _slot_idx = write(&mut ring, OperationKind::DiskWrite, data).unwrap();

    let result = ring.read().unwrap();
    assert!(result.is_some());

    let (kind, read_data) = result.unwrap();
    assert_eq!(kind, OperationKind::DiskWrite);
    assert_eq!(read_data, data);
}

#[test]
fn test_create_and_open_ring_buffer() {
    let options = RingBufferOptions {
        path: PathBuf::from("/tmp/elgate_test_ring"),
        size: DEFAULT_RING_SIZE,
        slot_size: DEFAULT_SLOT_SIZE,
    };

    // Create a new ring buffer, write to it, and share its region.
    let mut map = MmapMut::map_anon(options.size).unwrap();
    map.fill(0);
    let mut ring = RingBuffer::create_in(map, options.clone(), 0);
    let data = b"test data";
    write(&mut ring, OperationKind::DiskWrite, data).unwrap();

    // Open the existing ring buffer
    let shared = ring_region(&ring);
    let mut ring2 = RingBuffer::open_in(shared, options).unwrap();
    assert!(!ring2.is_producer());

    // Read the data back
    let (op, read_data) = ring2.read().unwrap().unwrap();
    assert_eq!(op, OperationKind::DiskWrite);
    assert_eq!(read_data, data);
}

/// A copy of the region a ring is laid out in, taken through a second ring
/// opened over an equal region.
fn ring_region(ring: &RingBuffer) -> MmapMut {
    region_copy(&ring.region()[..])
}

#[test]
fn defaults() {
    let options = RingBufferOptions::default();
    assert_eq!(options.path, PathBuf::from("/dev/shm/elgate_ring"));
    assert_eq!(options.size, 4 * 1024 * 1024);
    assert_eq!(options.slot_size, 4 * 1024);
    assert_eq!(get_default_ring_path(), PathBuf::from(DEFAULT_RING_PATH));
}

#[test]
fn write_refuses_oversized_payload() {
    let options = options("/tmp/elgate_test_ring_large", 64 * 1024, 128);
    let mut ring = create(&options);
    assert_eq!(ring.max_payload_size(), 64);
    assert_eq!(write(&mut ring, OperationKind::DiskWrite, &[1u8; 65]), Err(RingError::DataTooLarge));
    assert_eq!(write(&mut ring, OperationKind::DiskWrite, &[1u8; 64]), Ok(0));
}

#[test]
fn write_fails_when_full() {
    // Room for three slots.
    let options = options("/tmp/elgate_test_ring_full", HEADER_SIZE + 3 * 128, 128);
    let mut ring = create(&options);
    assert_eq!(ring.slot_count(), 3);
    assert_eq!(write(&mut ring, OperationKind::NetworkSend, b"a"), Ok(0));
    assert_eq!(write(&mut ring, OperationKind::NetworkSend, b"b"), Ok(1));
    // One slot always stays free: with two operations waiting the ring is full.
    assert_eq!(
        write(&mut ring, OperationKind::NetworkSend, b"c"),
        Err(RingError::Full { attempts: 10 })
    );
    // Nothing waiting was overrun, and reading frees a slot again.
    assert_eq!(ring.read().unwrap(), Some((OperationKind::NetworkSend, b"a".to_vec())));
    assert_eq!(write(&mut ring, OperationKind::NetworkSend, b"c"), Ok(2));
    assert_eq!(ring.read().unwrap(), Some((OperationKind::NetworkSend, b"b".to_vec())));
    assert_eq!(ring.read().unwrap(), Some((OperationKind::NetworkSend, b"c".to_vec())));
    assert_eq!(ring.read().unwrap(), None);
}

#[test]
fn backoff_doubles_up_to_the_limit() {
    let mut wait = SlotWait::new();
    let delays: Vec<Option<u64>> = (0..11).map(|_| wait.next_delay()).collect();
    assert_eq!(
        delays,
        vec![
            Some(1),
            Some(2),
            Some(4),
            Some(8),
            Some(16),
            Some(32),
            Some(64),
            Some(100),
            Some(100),
            Some(100),
            None
        ]
    );
}

#[test]
fn open_rejects_invalid_regions() {
    let options = options("/tmp/elgate_test_ring_invalid", 8192, 512);
    let zeros = MmapMut::map_anon(8192).unwrap();
    assert_eq!(RingBuffer::open_in(zeros, options.clone()).err(), Some(RingError::InvalidHeader));
    let small = MmapMut::map_anon(100).unwrap();
    assert_eq!(RingBuffer::open_in(small, options.clone()).err(), Some(RingError::InvalidHeader));
}

#[test]
fn open_uses_recorded_sizes() {
    let created = options("/tmp/elgate_test_ring_sizes", 8192, 512);
    let ring = create(&created);
    let asked = options("/tmp/elgate_test_ring_sizes", 4096, 256);
    let opened = RingBuffer::open_in(ring_region(&ring), asked.clone()).unwrap();
    assert_eq!(opened.size(), 8192);
    assert_eq!(opened.slot_size(), 512);
    assert!(opened.differs_from(&asked));
    assert!(!opened.differs_from(&created));
}

#[test]
fn producer_registration_counts_once() {
    let options = options("/tmp/elgate_test_ring_producers", 8192, 512);
    let ring = create(&options);
    let mut consumer = RingBuffer::open_in(ring_region(&ring), options).unwrap();
    assert_eq!(consumer.active_producers(), 1);
    consumer.register_as_producer();
    consumer.register_as_producer();
    assert_eq!(consumer.active_producers(), 2);
    consumer.unregister_as_producer();
    consumer.unregister_as_producer();
    assert_eq!(consumer.active_producers(), 1);
    assert!(!consumer.is_producer());
}

#[test]
fn reads_come_back_in_write_order_across_wraparound() {
    let options = options("/tmp/elgate_test_ring_wrap", HEADER_SIZE + 4 * 128, 128);
    let mut ring = create(&options);
    for round in 0..5u8 {
        write(&mut ring, OperationKind::DiskRead, &[round]).unwrap();
        write(&mut ring, OperationKind::DiskWrite, &[round, round]).unwrap();
        assert_eq!(ring.read().unwrap(), Some((OperationKind::DiskRead, vec![round])));
        assert_eq!(ring.read().unwrap(), Some((OperationKind::DiskWrite, vec![round, round])));
        assert_eq!(ring.read().unwrap(), None);
    }
    assert_eq!(ring.operations_completed(), 10);
}

#[test]
fn ring_keeps_its_path_and_creation_time() {
    let options = options("/tmp/elgate_test_ring_path", 8192, 512);
    let ring = create(&options);
    assert_eq!(ring.path(), &PathBuf::from("/tmp/elgate_test_ring_path"));
    assert_eq!(options.clone().path, options.path);
    // Stamped with the current time in seconds since the Unix epoch.
    assert!(ring.created_at() > 1_500_000_000);
}

#[test]
fn ring_records_its_numa_node() {
    let options = options("/tmp/elgate_test_ring_numa_node", 8192, 512);
    let map = MmapMut::map_anon(options.size).unwrap();
    let mut ring = RingBuffer::create_in(map, options.clone(), 3);
    assert_eq!(ring.numa_node(), 3);
    assert_eq!(create(&options).numa_node(), 0);
    // The node survives writes and reads, and a second handle sees it.
    write(&mut ring, OperationKind::Custom, b"x").unwrap();
    assert_eq!(ring.read().unwrap(), Some((OperationKind::Custom, b"x".to_vec())));
    let opened = RingBuffer::open_in(ring_region(&ring), options).unwrap();
    assert_eq!(opened.numa_node(), 3);
}

#[test]
fn open_accepts_a_valid_header_with_an_unusable_layout() {
    // A header that validates but whose slots are smaller than their metadata.
    let mut map = MmapMut::map_anon(8192).unwrap();
    let mut header = elgate_core::ring::RingHeader::new(8192, 32);
    header.register_producer();
    header.store(&mut map);
    let asked = options("/tmp/elgate_test_ring_unusable", 8192, 32);
    let ring = RingBuffer::open_in(map, asked).unwrap();
    assert_eq!(ring.slot_size(), 32);
    assert_eq!(ring.slot_count(), 250);
    assert_eq!(ring.active_producers(), 1);
    assert!(!ring.is_producer());
    assert!(!ring.is_usable());

    // A header whose slot count reaches past the region.
    let mut map = MmapMut::map_anon(8192).unwrap();
    let mut header = elgate_core::ring::RingHeader::new(8192, 512);
    header.slot_count = 100;
    header.store(&mut map);
    let ring = RingBuffer::open_in(map, options("/tmp/elgate_test_ring_unusable", 8192, 512)).unwrap();
    assert!(!ring.is_usable());

    // A created ring is usable, and so is one opened over its region.
    let created = create(&options("/tmp/elgate_test_ring_usable", 8192, 512));
    assert!(created.is_usable());
    let opened = RingBuffer::open_in(ring_region(&created), options("/tmp/x", 8192, 512)).unwrap();
    assert!(opened.is_usable());
}
