use elgate_core::ring::{OperationKind, Slot, SlotStatus};
use memmap2::MmapMut;
use uuid::Uuid;

#[test]
fn test_slot_operations() {
    // Map memory for a slot
    let slot_size = 4096;
    let mut map = MmapMut::map_anon(slot_size).unwrap();

    // Create a slot over the memory
    let slot = Slot::from_ptr(0, slot_size);

    // Reset the slot
    slot.reset(&mut map);

    // Check initial state
    assert_eq!(slot.status(&map), SlotStatus::Empty);
    assert_eq!(slot.operation(&map), OperationKind::NoOp);
    assert_eq!(slot.size(&map), 0);
    assert_eq!(slot.id(&map), Uuid::nil());

    // Set operation details
    slot.set_operation(&mut map, OperationKind::DiskWrite);
    let id = Uuid::new_v4();
    slot.set_id(&mut map, &id);

    // Check operation details
    assert_eq!(slot.operation(&map), OperationKind::DiskWrite);
    assert_eq!(slot.id(&map), id);

    // Write data
    let data = b"test data";
    slot.write_data(&mut map, data).unwrap();

    // Check after writing
    assert_eq!(slot.status(&map), SlotStatus::Ready);
    assert_eq!(slot.size(&map), data.len());

    // Read data
    let read_data = slot.read_data(&mut map).unwrap();

    // Check after reading
    assert_eq!(read_data, data);
    assert_eq!(slot.status(&map), SlotStatus::Complete);

    // Reset
    slot.reset(&mut map);
    assert_eq!(slot.status(&map), SlotStatus::Empty);
}

#[test]
fn write_data_refuses_oversized_payload() {
    let mut map = MmapMut::map_anon(128).unwrap();
    let slot = Slot::from_ptr(0, 128);
    slot.reset(&mut map);
    assert_eq!(slot.write_data(&mut map, &[7u8; 65]), Err("Data too large for slot"));
    assert_eq!(slot.status(&map), SlotStatus::Empty);
    assert!(slot.write_data(&mut map, &[7u8; 64]).is_ok());
    assert_eq!(slot.read_data(&mut map).unwrap(), vec![7u8; 64]);
}

#[test]
fn read_data_needs_a_ready_slot() {
    let mut map = MmapMut::map_anon(256).unwrap();
    let slot = Slot::from_ptr(64, 128);
    slot.reset(&mut map);
    assert_eq!(slot.read_data(&mut map), None);
    slot.write_data_at(&mut map, b"abc", 42).unwrap();
    assert_eq!(slot.timestamp(&map), 42);
    assert_eq!(slot.read_data(&mut map), Some(b"abc".to_vec()));
    // Read once: the slot is complete and yields nothing more.
    assert_eq!(slot.read_data(&mut map), None);
}

#[test]
fn status_and_kind_codes_round_trip() {
    for s in [SlotStatus::Empty, SlotStatus::Writing, SlotStatus::Ready, SlotStatus::Reading, SlotStatus::Complete] {
        assert_eq!(SlotStatus::from_code(s.code()), s);
    }
    for k in [
        OperationKind::NoOp,
        OperationKind::DiskWrite,
        OperationKind::DiskRead,
        OperationKind::NetworkSend,
        OperationKind::NetworkReceive,
        OperationKind::NetworkClose,
        OperationKind::Custom,
    ] {
        assert_eq!(OperationKind::from_code(k.code()), k);
    }
    assert_eq!(OperationKind::Custom.code(), 100);
    assert_eq!(OperationKind::from_code(77), OperationKind::NoOp);
}

#[test]
fn set_id_stores_the_uuid_bytes() {
    let mut map = MmapMut::map_anon(128).unwrap();
    let slot = Slot::from_ptr(0, 128);
    let id = Uuid::from_bytes([1, 2, 3, 4, 5, 6, 7, 8, 9, 10, 11, 12, 13, 14, 15, 16]);
    slot.set_id(&mut map, &id);
    assert_eq!(slot.id(&map), id);
    assert_eq!(&map[16..32], &[4, 3, 2, 1, 8, 7, 6, 5, 12, 11, 10, 9, 16, 15, 14, 13]);
}
