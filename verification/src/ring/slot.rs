//! Slots of the ring buffer.
//!
//! A slot is a fixed-size piece of the mapped region: 64 bytes of metadata
//! followed by the payload area. The metadata layout is
//!
//! | offset | width | field                         |
//! |--------|-------|-------------------------------|
//! | 0      | 4     | status code                   |
//! | 4      | 4     | operation code                |
//! | 8      | 8     | payload size                  |
//! | 16     | 16    | operation id (four 32-bit words, each the big-endian value of four id bytes) |
//! | 32     | 8     | timestamp (seconds since the Unix epoch) |
//! | 40     | 24    | reserved                      |
//!
//! All words are little-endian.

use crate::ring::region::{
    group_region_lemmas, lemma_overwrite_commute, lemma_overwrite_twice, mapped_bytes, overwrite,
    read_bytes, read_u32, read_u64, u32_at, u64_at, with_u32, with_u64, write_bytes, write_u32,
    write_u64,
};
use memmap2::MmapMut;
use uuid::Uuid;
use vstd::bytes::{spec_u32_to_le_bytes, spec_u64_to_le_bytes};
use vstd::prelude::*;

verus! {

broadcast use group_region_lemmas;

/// Size of a slot's metadata block; the payload starts right after it.
pub const SLOT_METADATA_SIZE: usize = 64;

/// Offset of the status word within the metadata.
pub const STATUS_OFFSET: usize = 0;

/// Offset of the operation word within the metadata.
pub const OPERATION_OFFSET: usize = 4;

/// Offset of the payload-size word within the metadata.
pub const SIZE_OFFSET: usize = 8;

/// Offset of the operation id within the metadata.
pub const ID_OFFSET: usize = 16;

/// Offset of the timestamp word within the metadata.
pub const TIMESTAMP_OFFSET: usize = 32;

/// Length of an operation id in bytes.
pub const ID_LEN: usize = 16;

// ---------------------------------------------------------------------------
// Operation ids
// ---------------------------------------------------------------------------

#[verifier::external_type_specification]
#[verifier::external_body]
pub struct ExUuid(Uuid);

/// The sixteen bytes of a UUID.
pub uninterp spec fn uuid_bytes(id: Uuid) -> Seq<u8>;

/// The sixteen zero bytes of the nil UUID.
pub open spec fn nil_id_bytes() -> Seq<u8> {
    Seq::new(16, |i: int| 0u8)
}

/// Calls `Uuid::as_bytes`, which returns the UUID's bytes.
#[verifier::external_body]
fn uuid_as_bytes(id: &Uuid) -> (bytes: [u8; 16])
    ensures
        bytes@ == uuid_bytes(*id),
{
    *id.as_bytes()
}

/// Calls `Uuid::from_slice`, which fails exactly when the slice is not
/// sixteen bytes long and otherwise builds the UUID with those bytes.
#[verifier::external_body]
fn uuid_from_slice(bytes: &[u8]) -> (id: Option<Uuid>)
    ensures
        id is Some <==> bytes@.len() == 16,
        id matches Some(u) ==> uuid_bytes(u) == bytes@,
{
    Uuid::from_slice(bytes).ok()
}

/// Calls `Uuid::nil`, the UUID whose bytes are all zero.
#[verifier::external_body]
fn uuid_nil() -> (id: Uuid)
    ensures
        uuid_bytes(id) == nil_id_bytes(),
{
    Uuid::nil()
}

/// `id` has the length, version bits (4) and variant bits (10) of a random
/// (version 4) UUID.
pub open spec fn random_id_bits(id: Seq<u8>) -> bool {
    &&& id.len() == 16
    &&& id[6] & 0xf0u8 == 0x40u8
    &&& id[8] & 0xc0u8 == 0x80u8
}

/// Calls `Uuid::new_v4`, a random UUID; all that is known of it is its
/// length and the version and variant bits that it always carries.
#[verifier::external_body]
pub(crate) fn uuid_new_v4() -> (id: Uuid)
    ensures
        uuid_bytes(id).len() == 16,
        uuid_bytes(id)[6] & 0xf0u8 == 0x40u8,
        uuid_bytes(id)[8] & 0xc0u8 == 0x80u8,
{
    Uuid::new_v4()
}

/// How an id is laid out in a slot: each group of four bytes is stored as a
/// 32-bit word built big-endian from the group and written little-endian,
/// that is, with the group's bytes reversed.
pub open spec fn stored_id(id: Seq<u8>) -> Seq<u8> {
    Seq::new(16, |i: int| id[(i / 4) * 4 + 3 - i % 4])
}

/// Laying out an id twice gives the id back.
pub proof fn lemma_stored_id_involution(id: Seq<u8>)
    requires
        id.len() == 16,
    ensures
        stored_id(stored_id(id)) == id,
{
    assert(stored_id(stored_id(id)) =~= id);
}

/// Reorders the bytes of an id between its own order and the slot layout.
fn swap_id_groups(bytes: &[u8]) -> (out: Vec<u8>)
    requires
        bytes@.len() == 16,
    ensures
        out@ == stored_id(bytes@),
{
    let mut out: Vec<u8> = Vec::new();
    let mut i: usize = 0;
    while i < 16
        invariant
            0 <= i <= 16,
            bytes@.len() == 16,
            out@.len() == i,
            forall|k: int| 0 <= k < i ==> out@[k] == stored_id(bytes@)[k],
        decreases 16 - i,
    {
        out.push(bytes[(i / 4) * 4 + 3 - i % 4]);
        i = i + 1;
    }
    assert(out@ =~= stored_id(bytes@));
    out
}

// ---------------------------------------------------------------------------
// Status and operation kind
// ---------------------------------------------------------------------------

/// Status of a slot in the ring buffer.
#[derive(Debug, Clone, Copy, PartialEq, Eq, Structural)]
pub enum SlotStatus {
    /// Available for writing.
    Empty,
    /// Being written by a producer.
    Writing,
    /// Ready to be read by the consumer.
    Ready,
    /// Being read by the consumer.
    Reading,
    /// Processed; can be reused.
    Complete,
}

impl SlotStatus {
    /// The code stored in a slot's status word.
    pub open spec fn spec_code(self) -> u32 {
        match self {
            SlotStatus::Empty => 0,
            SlotStatus::Writing => 1,
            SlotStatus::Ready => 2,
            SlotStatus::Reading => 3,
            SlotStatus::Complete => 4,
        }
    }

    /// The status a stored code stands for; unknown codes read as `Empty`.
    pub open spec fn spec_from_code(code: u32) -> SlotStatus {
        if code == 1 {
            SlotStatus::Writing
        } else if code == 2 {
            SlotStatus::Ready
        } else if code == 3 {
            SlotStatus::Reading
        } else if code == 4 {
            SlotStatus::Complete
        } else {
            SlotStatus::Empty
        }
    }

    /// The code stored in a slot's status word.
    pub fn code(&self) -> (c: u32)
        ensures
            c == self.spec_code(),
    {
        match self {
            SlotStatus::Empty => 0,
            SlotStatus::Writing => 1,
            SlotStatus::Ready => 2,
            SlotStatus::Reading => 3,
            SlotStatus::Complete => 4,
        }
    }

    /// The status a stored code stands for; unknown codes read as `Empty`.
    pub fn from_code(code: u32) -> (s: SlotStatus)
        ensures
            s == Self::spec_from_code(code),
    {
        if code == 1 {
            SlotStatus::Writing
        } else if code == 2 {
            SlotStatus::Ready
        } else if code == 3 {
            SlotStatus::Reading
        } else if code == 4 {
            SlotStatus::Complete
        } else {
            SlotStatus::Empty
        }
    }
}

/// A status survives the round trip through its code.
pub proof fn lemma_status_code_round_trip(s: SlotStatus)
    ensures
        SlotStatus::spec_from_code(s.spec_code()) == s,
{
}

/// Kind of operation stored in a slot.
#[derive(Debug, Clone, Copy, PartialEq, Eq, Structural)]
pub enum OperationKind {
    /// No operation (empty slot).
    NoOp,
    /// Write to disk.
    DiskWrite,
    /// Read from disk.
    DiskRead,
    /// Send over the network.
    NetworkSend,
    /// Receive from the network.
    NetworkReceive,
    /// Close a network connection.
    NetworkClose,
    /// Custom operation.
    Custom,
}

impl OperationKind {
    /// The code stored in a slot's operation word.
    pub open spec fn spec_code(self) -> u32 {
        match self {
            OperationKind::NoOp => 0,
            OperationKind::DiskWrite => 1,
            OperationKind::DiskRead => 2,
            OperationKind::NetworkSend => 3,
            OperationKind::NetworkReceive => 4,
            OperationKind::NetworkClose => 5,
            OperationKind::Custom => 100,
        }
    }

    /// The kind a stored code stands for; unknown codes read as `NoOp`.
    pub open spec fn spec_from_code(code: u32) -> OperationKind {
        if code == 1 {
            OperationKind::DiskWrite
        } else if code == 2 {
            OperationKind::DiskRead
        } else if code == 3 {
            OperationKind::NetworkSend
        } else if code == 4 {
            OperationKind::NetworkReceive
        } else if code == 5 {
            OperationKind::NetworkClose
        } else if code == 100 {
            OperationKind::Custom
        } else {
            OperationKind::NoOp
        }
    }

    /// The code stored in a slot's operation word.
    pub fn code(&self) -> (c: u32)
        ensures
            c == self.spec_code(),
    {
        match self {
            OperationKind::NoOp => 0,
            OperationKind::DiskWrite => 1,
            OperationKind::DiskRead => 2,
            OperationKind::NetworkSend => 3,
            OperationKind::NetworkReceive => 4,
            OperationKind::NetworkClose => 5,
            OperationKind::Custom => 100,
        }
    }

    /// The kind a stored code stands for; unknown codes read as `NoOp`.
    pub fn from_code(code: u32) -> (k: OperationKind)
        ensures
            k == Self::spec_from_code(code),
    {
        if code == 1 {
            OperationKind::DiskWrite
        } else if code == 2 {
            OperationKind::DiskRead
        } else if code == 3 {
            OperationKind::NetworkSend
        } else if code == 4 {
            OperationKind::NetworkReceive
        } else if code == 5 {
            OperationKind::NetworkClose
        } else if code == 100 {
            OperationKind::Custom
        } else {
            OperationKind::NoOp
        }
    }
}

/// An operation kind survives the round trip through its code.
pub proof fn lemma_kind_code_round_trip(k: OperationKind)
    ensures
        OperationKind::spec_from_code(k.spec_code()) == k,
{
}

/// Details of an operation.
#[derive(Debug, Clone, Copy, PartialEq, Eq)]
pub struct Operation {
    /// Kind of operation.
    pub kind: OperationKind,
    /// Size of the payload in bytes.
    pub size: usize,
    /// Operation id.
    pub id: [u8; 16],
    /// When the operation was created, in seconds since the Unix epoch.
    pub timestamp: u64,
}

/// The metadata block at the start of a slot, as values.
#[derive(Debug, Clone, Copy, PartialEq, Eq)]
pub struct SlotMetadata {
    /// Status code.
    pub status: u32,
    /// Operation code.
    pub operation: u32,
    /// Payload size in bytes.
    pub size: usize,
    /// Operation id, as four words.
    pub id: [u32; 4],
    /// Timestamp, in seconds since the Unix epoch.
    pub timestamp: u64,
    /// Reserved.
    pub _reserved: [u32; 2],
}

// ---------------------------------------------------------------------------
// Time
// ---------------------------------------------------------------------------

#[verifier::external_type_specification]
#[verifier::external_body]
pub struct ExSystemTime(std::time::SystemTime);

/// What `SystemTime::duration_since` gives for a time and the Unix epoch:
/// the time elapsed since the epoch, or `None` for a time before it.
pub uninterp spec fn epoch_offset(t: std::time::SystemTime) -> Option<std::time::Duration>;

/// What `Duration::as_secs` gives: the whole seconds of a duration.
pub uninterp spec fn whole_secs(d: std::time::Duration) -> u64;

/// The whole seconds from the Unix epoch to `t`, or 0 for a time before the
/// epoch.
pub open spec fn spec_unix_secs(t: std::time::SystemTime) -> u64 {
    match epoch_offset(t) {
        Some(d) => whole_secs(d),
        Option::None => 0,
    }
}

/// `t` is a value the clock can give: the whole seconds since the Unix epoch
/// of some reading.
pub open spec fn clock_secs(t: u64) -> bool {
    exists|c: std::time::SystemTime| #[trigger] spec_unix_secs(c) == t
}

/// Calls `SystemTime::now`; nothing is known of the clock's value.
#[verifier::external_body]
fn system_time_now() -> std::time::SystemTime {
    std::time::SystemTime::now()
}

/// Calls `SystemTime::duration_since` with the Unix epoch; `None` stands for
/// the error it returns for a time before the epoch.
#[verifier::external_body]
fn since_unix_epoch(t: &std::time::SystemTime) -> (d: Option<std::time::Duration>)
    ensures
        d == epoch_offset(*t),
{
    t.duration_since(std::time::UNIX_EPOCH).ok()
}

/// Calls `Duration::as_secs`, the whole seconds of a duration.
#[verifier::external_body]
fn duration_secs(d: &std::time::Duration) -> (s: u64)
    ensures
        s == whole_secs(*d),
{
    d.as_secs()
}

/// The current time in whole seconds since the Unix epoch, or 0 when the
/// clock reads a time before the epoch. The clock's reading itself is not
/// known, so what is stated is that the result is this conversion of some
/// reading.
pub fn unix_time_secs() -> (secs: u64)
    ensures
        exists|t: std::time::SystemTime| #[trigger] spec_unix_secs(t) == secs,
{
    let now = system_time_now();
    let secs = match since_unix_epoch(&now) {
        Some(d) => duration_secs(&d),
        Option::None => 0,
    };
    assert(spec_unix_secs(now) == secs);
    secs
}

// ---------------------------------------------------------------------------
// Slots
// ---------------------------------------------------------------------------

/// A slot in the ring buffer: where its metadata and its payload area lie in
/// the mapped region, and how large the payload area is.
pub struct Slot {
    /// Offset of the slot's metadata in the region.
    pub metadata: usize,
    /// Offset of the slot's payload area in the region.
    pub data: usize,
    /// Size of the payload area in bytes.
    pub data_size: usize,
}

impl Slot {
    /// The slot lies within a region of `len` bytes, its payload right after
    /// its metadata.
    pub open spec fn fits(&self, len: nat) -> bool {
        &&& self.data == self.metadata + SLOT_METADATA_SIZE
        &&& self.data + self.data_size <= len
        &&& len <= usize::MAX
    }

    /// Status recorded in the slot.
    pub open spec fn spec_status(&self, bytes: Seq<u8>) -> SlotStatus {
        SlotStatus::spec_from_code(u32_at(bytes, self.metadata as int))
    }

    /// Operation kind recorded in the slot.
    pub open spec fn spec_operation(&self, bytes: Seq<u8>) -> OperationKind {
        OperationKind::spec_from_code(u32_at(bytes, self.metadata + OPERATION_OFFSET))
    }

    /// Payload size recorded in the slot.
    pub open spec fn spec_size(&self, bytes: Seq<u8>) -> u64 {
        u64_at(bytes, self.metadata + SIZE_OFFSET)
    }

    /// Operation id recorded in the slot.
    pub open spec fn spec_id(&self, bytes: Seq<u8>) -> Seq<u8> {
        stored_id(bytes.subrange(self.metadata + ID_OFFSET, self.metadata + ID_OFFSET + 16))
    }

    /// Timestamp recorded in the slot.
    pub open spec fn spec_timestamp(&self, bytes: Seq<u8>) -> u64 {
        u64_at(bytes, self.metadata + TIMESTAMP_OFFSET)
    }

    /// The first `len` bytes of the payload area.
    pub open spec fn spec_payload(&self, bytes: Seq<u8>, len: int) -> Seq<u8> {
        bytes.subrange(self.data as int, self.data + len)
    }

    /// The region after the slot's metadata is reset: status, operation,
    /// size, id and timestamp all zero.
    pub open spec fn spec_reset(&self, bytes: Seq<u8>) -> Seq<u8> {
        let m = self.metadata as int;
        with_u64(
            overwrite(
                with_u64(with_u32(with_u32(bytes, m, 0), m + OPERATION_OFFSET, 0), m + SIZE_OFFSET, 0),
                m + ID_OFFSET,
                nil_id_bytes(),
            ),
            m + TIMESTAMP_OFFSET,
            0,
        )
    }

    /// The region after `data` is stored in the slot with timestamp
    /// `timestamp`: status `Ready`, size and timestamp words set, payload
    /// written; operation and id untouched.
    pub open spec fn spec_store(&self, bytes: Seq<u8>, data: Seq<u8>, timestamp: u64) -> Seq<u8> {
        let m = self.metadata as int;
        with_u32(
            overwrite(
                with_u64(with_u64(bytes, m + SIZE_OFFSET, data.len() as u64), m + TIMESTAMP_OFFSET, timestamp),
                self.data as int,
                data,
            ),
            m,
            SlotStatus::Ready.spec_code(),
        )
    }

    /// Describes the slot whose metadata starts at offset `ptr` of the region
    /// and which spans `slot_size` bytes.
    pub fn from_ptr(ptr: usize, slot_size: usize) -> (slot: Slot)
        requires
            slot_size >= SLOT_METADATA_SIZE,
            ptr + SLOT_METADATA_SIZE <= usize::MAX,
        ensures
            slot.metadata == ptr,
            slot.data == ptr + SLOT_METADATA_SIZE,
            slot.data_size == slot_size - SLOT_METADATA_SIZE,
    {
        Slot { metadata: ptr, data: ptr + SLOT_METADATA_SIZE, data_size: slot_size - SLOT_METADATA_SIZE }
    }

    /// Gets the status of the slot.
    pub fn status(&self, map: &MmapMut) -> (s: SlotStatus)
        requires
            self.fits(mapped_bytes(*map).len()),
        ensures
            s == self.spec_status(mapped_bytes(*map)),
    {
        SlotStatus::from_code(read_u32(map, self.metadata))
    }

    /// Sets the status of the slot.
    pub fn set_status(&self, map: &mut MmapMut, status: SlotStatus)
        requires
            self.fits(mapped_bytes(*old(map)).len()),
        ensures
            mapped_bytes(*final(map)) == with_u32(
                mapped_bytes(*old(map)),
                self.metadata as int,
                status.spec_code(),
            ),
    {
        write_u32(map, self.metadata, status.code());
    }

    /// Gets the operation kind of the slot.
    pub fn operation(&self, map: &MmapMut) -> (k: OperationKind)
        requires
            self.fits(mapped_bytes(*map).len()),
        ensures
            k == self.spec_operation(mapped_bytes(*map)),
    {
        OperationKind::from_code(read_u32(map, self.metadata + OPERATION_OFFSET))
    }

    /// Sets the operation kind of the slot.
    pub fn set_operation(&self, map: &mut MmapMut, operation: OperationKind)
        requires
            self.fits(mapped_bytes(*old(map)).len()),
        ensures
            mapped_bytes(*final(map)) == with_u32(
                mapped_bytes(*old(map)),
                self.metadata + OPERATION_OFFSET,
                operation.spec_code(),
            ),
    {
        write_u32(map, self.metadata + OPERATION_OFFSET, operation.code());
    }

    /// Gets the size of the payload.
    pub fn size(&self, map: &MmapMut) -> (n: usize)
        requires
            self.fits(mapped_bytes(*map).len()),
        ensures
            n == self.spec_size(mapped_bytes(*map)) as usize,
    {
        read_u64(map, self.metadata + SIZE_OFFSET) as usize
    }

    /// Sets the size of the payload.
    pub fn set_size(&self, map: &mut MmapMut, size: usize)
        requires
            self.fits(mapped_bytes(*old(map)).len()),
        ensures
            mapped_bytes(*final(map)) == with_u64(
                mapped_bytes(*old(map)),
                self.metadata + SIZE_OFFSET,
                size as u64,
            ),
    {
        write_u64(map, self.metadata + SIZE_OFFSET, size as u64);
    }

    /// Gets the operation id.
    pub fn id(&self, map: &MmapMut) -> (id: Uuid)
        requires
            self.fits(mapped_bytes(*map).len()),
        ensures
            uuid_bytes(id) == self.spec_id(mapped_bytes(*map)),
    {
        let stored = read_bytes(map, self.metadata + ID_OFFSET, self.metadata + ID_OFFSET + ID_LEN);
        let bytes = swap_id_groups(stored.as_slice());
        match uuid_from_slice(bytes.as_slice()) {
            Some(id) => id,
            Option::None => uuid_nil(),
        }
    }

    /// Sets the operation id.
    pub fn set_id(&self, map: &mut MmapMut, id: &Uuid)
        requires
            self.fits(mapped_bytes(*old(map)).len()),
        ensures
            mapped_bytes(*final(map)) == overwrite(
                mapped_bytes(*old(map)),
                self.metadata + ID_OFFSET,
                stored_id(uuid_bytes(*id)),
            ),
    {
        let bytes = uuid_as_bytes(id);
        let stored = swap_id_groups(bytes.as_slice());
        write_bytes(map, self.metadata + ID_OFFSET, stored.as_slice());
    }

    /// Gets the operation timestamp.
    pub fn timestamp(&self, map: &MmapMut) -> (t: u64)
        requires
            self.fits(mapped_bytes(*map).len()),
        ensures
            t == self.spec_timestamp(mapped_bytes(*map)),
    {
        read_u64(map, self.metadata + TIMESTAMP_OFFSET)
    }

    /// Sets the operation timestamp.
    pub fn set_timestamp(&self, map: &mut MmapMut, timestamp: u64)
        requires
            self.fits(mapped_bytes(*old(map)).len()),
        ensures
            mapped_bytes(*final(map)) == with_u64(
                mapped_bytes(*old(map)),
                self.metadata + TIMESTAMP_OFFSET,
                timestamp,
            ),
    {
        write_u64(map, self.metadata + TIMESTAMP_OFFSET, timestamp);
    }

    /// Copies the first `len` bytes of the payload area.
    pub fn data_slice(&self, map: &MmapMut, len: usize) -> (out: Vec<u8>)
        requires
            self.fits(mapped_bytes(*map).len()),
            len <= self.data_size,
        ensures
            out@ == self.spec_payload(mapped_bytes(*map), len as int),
    {
        read_bytes(map, self.data, self.data + len)
    }

    /// Stores `data` in the slot, stamped with `timestamp`: the status goes
    /// through `Writing` to `Ready`. Fails, changing nothing, when the data
    /// does not fit the payload area.
    pub fn write_data_at(&self, map: &mut MmapMut, data: &[u8], timestamp: u64) -> (r: Result<
        (),
        &'static str,
    >)
        requires
            self.fits(mapped_bytes(*old(map)).len()),
        ensures
            r is Err <==> data@.len() > self.data_size,
            r matches Err(e) ==> e@ == "Data too large for slot"@,
            r is Err ==> mapped_bytes(*final(map)) == mapped_bytes(*old(map)),
            r is Ok ==> mapped_bytes(*final(map)) == self.spec_store(
                mapped_bytes(*old(map)),
                data@,
                timestamp,
            ),
    {
        if data.len() > self.data_size {
            return Err("Data too large for slot");
        }
        let ghost b0 = mapped_bytes(*map);
        let ghost m = self.metadata as int;
        self.set_status(map, SlotStatus::Writing);
        self.set_size(map, data.len());
        self.set_timestamp(map, timestamp);
        write_bytes(map, self.data, data);
        self.set_status(map, SlotStatus::Ready);
        proof {
            let w = spec_u32_to_le_bytes(SlotStatus::Writing.spec_code());
            let s1 = spec_u64_to_le_bytes(data@.len() as u64);
            let s2 = spec_u64_to_le_bytes(timestamp);
            lemma_overwrite_commute(b0, m, w, m + SIZE_OFFSET, s1);
            lemma_overwrite_commute(overwrite(b0, m + SIZE_OFFSET, s1), m, w, m + TIMESTAMP_OFFSET, s2);
            lemma_overwrite_commute(
                overwrite(overwrite(b0, m + SIZE_OFFSET, s1), m + TIMESTAMP_OFFSET, s2),
                m,
                w,
                self.data as int,
                data@,
            );
            lemma_overwrite_twice(
                overwrite(overwrite(overwrite(b0, m + SIZE_OFFSET, s1), m + TIMESTAMP_OFFSET, s2), self.data as int, data@),
                m,
                w,
                spec_u32_to_le_bytes(SlotStatus::Ready.spec_code()),
            );
        }
        Ok(())
    }

    /// Stores `data` in the slot, stamped with the current time. Fails,
    /// changing nothing, when the data does not fit the payload area.
    pub fn write_data(&self, map: &mut MmapMut, data: &[u8]) -> (r: Result<(), &'static str>)
        requires
            self.fits(mapped_bytes(*old(map)).len()),
        ensures
            r is Err <==> data@.len() > self.data_size,
            r matches Err(e) ==> e@ == "Data too large for slot"@,
            r is Err ==> mapped_bytes(*final(map)) == mapped_bytes(*old(map)),
            r is Ok ==> exists|t: u64|
                clock_secs(t) && mapped_bytes(*final(map)) == self.spec_store(
                    mapped_bytes(*old(map)),
                    data@,
                    t,
                ),
    {
        let now = unix_time_secs();
        assert(clock_secs(now));
        self.write_data_at(map, data, now)
    }

    /// Reads the payload of a `Ready` slot and marks the slot `Complete`.
    /// A slot that is not `Ready` is left alone; a `Ready` slot whose
    /// recorded size exceeds the payload area is marked `Complete` and
    /// yields nothing.
    pub fn read_data(&self, map: &mut MmapMut) -> (r: Option<Vec<u8>>)
        requires
            self.fits(mapped_bytes(*old(map)).len()),
        ensures
            ({
                let b = mapped_bytes(*old(map));
                let size = self.spec_size(b);
                if self.spec_status(b) != SlotStatus::Ready {
                    r is None && mapped_bytes(*final(map)) == b
                } else {
                    &&& mapped_bytes(*final(map)) == with_u32(
                        b,
                        self.metadata as int,
                        SlotStatus::Complete.spec_code(),
                    )
                    &&& size > self.data_size ==> r is None
                    &&& size <= self.data_size ==> (r matches Some(v) && v@ == self.spec_payload(
                        b,
                        size as int,
                    ))
                }
            }),
    {
        if self.status(map) != SlotStatus::Ready {
            return Option::None;
        }
        let ghost b0 = mapped_bytes(*map);
        self.set_status(map, SlotStatus::Reading);
        let size = read_u64(map, self.metadata + SIZE_OFFSET);
        if size > self.data_size as u64 {
            self.set_status(map, SlotStatus::Complete);
            proof {
                lemma_overwrite_twice(
                    b0,
                    self.metadata as int,
                    spec_u32_to_le_bytes(SlotStatus::Reading.spec_code()),
                    spec_u32_to_le_bytes(SlotStatus::Complete.spec_code()),
                );
            }
            return Option::None;
        }
        let buffer = read_bytes(map, self.data, self.data + size as usize);
        self.set_status(map, SlotStatus::Complete);
        proof {
            lemma_overwrite_twice(
                b0,
                self.metadata as int,
                spec_u32_to_le_bytes(SlotStatus::Reading.spec_code()),
                spec_u32_to_le_bytes(SlotStatus::Complete.spec_code()),
            );
        }
        Some(buffer)
    }

    /// Resets the slot to the empty state.
    pub fn reset(&self, map: &mut MmapMut)
        requires
            self.fits(mapped_bytes(*old(map)).len()),
        ensures
            mapped_bytes(*final(map)) == self.spec_reset(mapped_bytes(*old(map))),
    {
        self.set_status(map, SlotStatus::Empty);
        self.set_operation(map, OperationKind::NoOp);
        self.set_size(map, 0);
        let nil = uuid_nil();
        self.set_id(map, &nil);
        self.set_timestamp(map, 0);
        assert(stored_id(nil_id_bytes()) =~= nil_id_bytes());
    }
}

/// The id `set_id` records is the one `id` reads back.
pub proof fn lemma_id_round_trip(s: Slot, bytes: Seq<u8>, id: Seq<u8>)
    requires
        s.fits(bytes.len()),
        id.len() == 16,
    ensures
        s.spec_id(overwrite(bytes, s.metadata + ID_OFFSET, stored_id(id))) == id,
{
    let at = s.metadata + ID_OFFSET;
    assert(overwrite(bytes, at, stored_id(id)).subrange(at, at + 16) == stored_id(id));
    lemma_stored_id_involution(id);
}

/// A stored payload reads back whole: the slot is `Ready`, records the
/// payload's length and the timestamp, and holds the payload, while its
/// kind and id are untouched.
pub proof fn lemma_store_then_read(s: Slot, bytes: Seq<u8>, data: Seq<u8>, timestamp: u64)
    requires
        s.fits(bytes.len()),
        data.len() <= s.data_size,
    ensures
        s.spec_status(s.spec_store(bytes, data, timestamp)) == SlotStatus::Ready,
        s.spec_size(s.spec_store(bytes, data, timestamp)) == data.len(),
        s.spec_timestamp(s.spec_store(bytes, data, timestamp)) == timestamp,
        s.spec_payload(s.spec_store(bytes, data, timestamp), data.len() as int) == data,
        s.spec_operation(s.spec_store(bytes, data, timestamp)) == s.spec_operation(bytes),
        s.spec_id(s.spec_store(bytes, data, timestamp)) == s.spec_id(bytes),
{
    let m = s.metadata as int;
    let b1 = with_u64(bytes, m + SIZE_OFFSET, data.len() as u64);
    let b2 = with_u64(b1, m + TIMESTAMP_OFFSET, timestamp);
    let b3 = overwrite(b2, s.data as int, data);
    let b4 = with_u32(b3, m, SlotStatus::Ready.spec_code());
    assert(u64_at(b2, m + SIZE_OFFSET) == data.len() as u64);
    assert(u64_at(b4, m + SIZE_OFFSET) == data.len() as u64);
    assert(u64_at(b4, m + TIMESTAMP_OFFSET) == timestamp);
    assert(b3.subrange(s.data as int, s.data + data.len()) == data);
    assert(b4.subrange(s.data as int, s.data + data.len()) =~= b3.subrange(
        s.data as int,
        s.data + data.len(),
    ));
    assert(u32_at(b4, m + OPERATION_OFFSET) == u32_at(bytes, m + OPERATION_OFFSET));
    assert(b4.subrange(m + ID_OFFSET, m + ID_OFFSET + 16) =~= bytes.subrange(
        m + ID_OFFSET,
        m + ID_OFFSET + 16,
    ));
}

/// A reset slot is empty: status `Empty`, no operation, size and timestamp
/// zero and the nil id.
pub proof fn lemma_reset_clears(s: Slot, bytes: Seq<u8>)
    requires
        s.fits(bytes.len()),
    ensures
        s.spec_status(s.spec_reset(bytes)) == SlotStatus::Empty,
        s.spec_operation(s.spec_reset(bytes)) == OperationKind::NoOp,
        s.spec_size(s.spec_reset(bytes)) == 0,
        s.spec_id(s.spec_reset(bytes)) == nil_id_bytes(),
        s.spec_timestamp(s.spec_reset(bytes)) == 0,
{
    let m = s.metadata as int;
    let b1 = with_u32(bytes, m, 0);
    let b2 = with_u32(b1, m + OPERATION_OFFSET, 0);
    let b3 = with_u64(b2, m + SIZE_OFFSET, 0);
    let b4 = overwrite(b3, m + ID_OFFSET, nil_id_bytes());
    let b5 = with_u64(b4, m + TIMESTAMP_OFFSET, 0);
    assert(u32_at(b5, m) == 0u32);
    assert(u32_at(b5, m + OPERATION_OFFSET) == 0u32);
    assert(u64_at(b5, m + SIZE_OFFSET) == 0u64);
    assert(u64_at(b5, m + TIMESTAMP_OFFSET) == 0u64);
    assert(b4.subrange(m + ID_OFFSET, m + ID_OFFSET + 16) == nil_id_bytes());
    assert(b5.subrange(m + ID_OFFSET, m + ID_OFFSET + 16) =~= nil_id_bytes());
    assert(stored_id(nil_id_bytes()) =~= nil_id_bytes());
}

} // verus!
