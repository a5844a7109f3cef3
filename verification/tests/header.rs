use elgate_core::ring::header::HEADER_SIZE;
use elgate_core::ring::RingHeader;
use memmap2::MmapMut;

#[test]
fn test_header_creation() {
    let size = 1024 * 1024;
    let slot_size = 4096;
    let header = RingHeader::new(size, slot_size);

    assert_eq!(header.magic, RingHeader::MAGIC);
    assert_eq!(header.version, RingHeader::VERSION);
    assert_eq!(header.size, size);
    assert_eq!(header.slot_size, slot_size);

    let expected_slot_count = (size - HEADER_SIZE) / slot_size;
    assert_eq!(header.slot_count, expected_slot_count);

    assert!(header.validate());
}

#[test]
fn test_producer_consumer_idx() {
    let mut header = RingHeader::new(1024 * 1024, 4096);
    let slot_count = header.slot_count;

    // Test producer index increment
    for i in 0..slot_count * 2 {
        let idx = header.next_producer_idx();
        assert_eq!(idx, i % slot_count);
    }

    // Test consumer index increment
    for i in 0..slot_count * 2 {
        let idx = header.next_consumer_idx();
        assert_eq!(idx, i % slot_count);
    }
}

#[test]
fn header_layout_size() {
    assert_eq!(HEADER_SIZE, 192);
    let header = RingHeader::new(1024 * 1024, 4096);
    assert_eq!(header.slot_count, 255);
    assert_eq!(header.encode().len(), 144);
}

#[test]
fn validate_rejects_bad_headers() {
    let mut header = RingHeader::new(4096, 4096);
    // No slot fits after the header.
    assert_eq!(header.slot_count, 0);
    assert!(!header.validate());

    header = RingHeader::new(8192, 4096);
    assert!(header.validate());
    header.magic = 0;
    assert!(!header.validate());

    header = RingHeader::new(8192, 4096);
    header.version = 2;
    assert!(!header.validate());

    header = RingHeader::new(HEADER_SIZE, 1);
    assert!(!header.validate());
}

#[test]
fn counters_wrap() {
    let mut header = RingHeader::new(8192, 64);
    header.register_producer();
    header.register_producer();
    assert_eq!(header.active_producers, 2);
    header.unregister_producer();
    assert_eq!(header.active_producers, 1);
    header.unregister_producer();
    header.unregister_producer();
    assert_eq!(header.active_producers, usize::MAX);
    header.increment_completed();
    assert_eq!(header.operations_completed, 1);
}

#[test]
fn store_then_load_gives_the_header_back() {
    let mut map = MmapMut::map_anon(4096).unwrap();
    let mut header = RingHeader::new_created_at(4096, 512, 1_700_000_000);
    header.register_producer();
    header.next_producer_idx();
    header.store(&mut map);
    let loaded = RingHeader::load(&map);
    assert_eq!(loaded.magic, RingHeader::MAGIC);
    assert_eq!(loaded.size, 4096);
    assert_eq!(loaded.slot_size, 512);
    assert_eq!(loaded.slot_count, 7);
    assert_eq!(loaded.producer_idx, 1);
    assert_eq!(loaded.active_producers, 1);
    assert_eq!(loaded.created_at, 1_700_000_000);
    assert_eq!(&map[0..8], &RingHeader::MAGIC.to_ne_bytes());
}

#[test]
fn numa_node_word() {
    let mut header = RingHeader::new(8192, 512);
    assert_eq!(header.numa_node(), 0);
    header.set_numa_node(0x0102_0304);
    assert_eq!(header.numa_node(), 0x0102_0304);
    assert_eq!(&header._padding[0..4], &[4, 3, 2, 1]);
    assert!(header._padding[4..].iter().all(|b| *b == 0));
    assert_eq!(header.slot_count, 15);
    let mut map = MmapMut::map_anon(8192).unwrap();
    header.store(&mut map);
    assert_eq!(RingHeader::load(&map).numa_node(), 0x0102_0304);
}

#[test]
fn new_header_is_stamped_with_the_clock() {
    let header = RingHeader::new(8192, 512);
    assert!(header.created_at > 1_500_000_000);
}
