//! Ring buffer over a memory-mapped region.
//!
//! The region holds the header followed by `slot_count` slots of
//! `slot_size` bytes each. Producers claim the slot at the producer index
//! and fill it; the consumer takes the slot at the consumer index. The
//! operations that are waiting to be read are those in the slots from the
//! consumer index up to, not including, the producer index, going around.

use crate::ring::header::{
    header_usize, spec_slot_count, spec_words_valid, wrapping_dec, wrapping_inc, RingHeader,
    ACTIVE_PRODUCERS_OFFSET, CONSUMER_IDX_OFFSET, CREATED_AT_OFFSET, HEADER_ENCODED_LEN,
    HEADER_SIZE, NUMA_NODE_OFFSET, OPERATIONS_COMPLETED_OFFSET, PADDING_OFFSET,
    PRODUCER_IDX_OFFSET, SIZE_OFFSET, SLOT_COUNT_OFFSET, SLOT_SIZE_OFFSET,
};
use crate::ring::region::{
    group_region_lemmas, mapped_bytes, overwrite, read_u32, read_u64, region_len, u32_at, u64_at,
    with_u32, with_u64, write_u64,
};
use vstd::bytes::spec_u32_to_le_bytes;
use crate::ring::slot::{
    clock_secs, random_id_bits,
    stored_id, unix_time_secs, uuid_bytes, uuid_new_v4, OperationKind, Slot, SlotStatus,
    ID_OFFSET, OPERATION_OFFSET, SLOT_METADATA_SIZE,
};
use crate::arch::cpu_info::CpuInfo;
use crate::ring::{DEFAULT_RING_PATH, DEFAULT_RING_SIZE, DEFAULT_SLOT_SIZE};
use memmap2::MmapMut;
use uuid::Uuid;
use vstd::prelude::*;

verus! {

broadcast use group_region_lemmas;

#[verifier::external_type_specification]
#[verifier::external_body]
pub struct ExPathBuf(std::path::PathBuf);

/// The text of a path.
pub uninterp spec fn path_text(p: std::path::PathBuf) -> Seq<char>;

/// Calls `PathBuf::from` on a string, the path with that text.
#[verifier::external_body]
pub(crate) fn path_from_str(s: &str) -> (p: std::path::PathBuf)
    ensures
        path_text(p) == s@,
{
    std::path::PathBuf::from(s)
}

/// `PathBuf::clone` gives a path with the same text.
pub assume_specification[ <std::path::PathBuf as Clone>::clone ](p: &std::path::PathBuf) -> (r:
    std::path::PathBuf)
    ensures
        path_text(r) == path_text(*p),
;

/// Errors of ring buffer operations.
#[derive(Debug, Clone, Copy, PartialEq, Eq, Structural)]
pub enum RingError {
    /// The payload does not fit in a slot.
    DataTooLarge,
    /// No slot became available within the allowed number of attempts.
    Full { attempts: u32 },
    /// The region does not hold a valid ring buffer.
    InvalidHeader,
}

/// What one attempt at writing an operation came to.
#[derive(Debug, Clone, Copy, PartialEq, Eq, Structural)]
pub enum WriteStep {
    /// The operation was written to the slot with this index.
    Written(usize),
    /// No slot was free; try again after this many milliseconds.
    Wait(u64),
    /// The write failed.
    Failed(RingError),
}

/// Options for creating or opening a ring buffer.
#[derive(Debug, Clone)]
pub struct RingBufferOptions {
    /// Path to the shared memory file.
    pub path: std::path::PathBuf,
    /// Total size of the ring buffer in bytes.
    pub size: usize,
    /// Size of each slot in bytes.
    pub slot_size: usize,
}

impl Default for RingBufferOptions {
    /// The default ring: at the default path, of the default size, with
    /// slots of the default size.
    fn default() -> (o: Self)
        ensures
            path_text(o.path) == DEFAULT_RING_PATH@,
            o.size == DEFAULT_RING_SIZE,
            o.slot_size == DEFAULT_SLOT_SIZE,
    {
        RingBufferOptions {
            path: path_from_str(DEFAULT_RING_PATH),
            size: DEFAULT_RING_SIZE,
            slot_size: DEFAULT_SLOT_SIZE,
        }
    }
}

/// A ring buffer over a memory-mapped region.
pub struct RingBuffer {
    mmap: MmapMut,
    path: std::path::PathBuf,
    size: usize,
    slot_size: usize,
    is_producer: bool,
}

/// Number of slots recorded in the header.
pub open spec fn slot_count_of(bytes: Seq<u8>) -> usize {
    header_usize(bytes, SLOT_COUNT_OFFSET as int)
}

/// Producer index recorded in the header.
pub open spec fn producer_of(bytes: Seq<u8>) -> usize {
    header_usize(bytes, PRODUCER_IDX_OFFSET as int)
}

/// Consumer index recorded in the header.
pub open spec fn consumer_of(bytes: Seq<u8>) -> usize {
    header_usize(bytes, CONSUMER_IDX_OFFSET as int)
}

/// Completed operation count recorded in the header.
pub open spec fn completed_of(bytes: Seq<u8>) -> usize {
    header_usize(bytes, OPERATIONS_COMPLETED_OFFSET as int)
}

/// Active producer count recorded in the header.
pub open spec fn active_producers_of(bytes: Seq<u8>) -> usize {
    header_usize(bytes, ACTIVE_PRODUCERS_OFFSET as int)
}

/// Slot `i` of a ring whose slots are `slot_size` bytes long.
pub open spec fn slot_at(slot_size: usize, i: int) -> Slot {
    Slot {
        metadata: (HEADER_SIZE + i * slot_size) as usize,
        data: (HEADER_SIZE + i * slot_size + SLOT_METADATA_SIZE) as usize,
        data_size: (slot_size - SLOT_METADATA_SIZE) as usize,
    }
}

/// The header and slots lie within the region and the indices point at
/// slots.
pub open spec fn layout_ok(bytes: Seq<u8>, slot_size: usize) -> bool {
    let n = slot_count_of(bytes) as int;
    &&& bytes.len() <= usize::MAX
    &&& HEADER_SIZE <= bytes.len()
    &&& slot_size > 0
    &&& (n == 0 || SLOT_METADATA_SIZE <= slot_size)
    &&& HEADER_SIZE + n * slot_size <= bytes.len()
    &&& (n == 0 ==> producer_of(bytes) == 0 && consumer_of(bytes) == 0)
    &&& (n > 0 ==> producer_of(bytes) < n && consumer_of(bytes) < n)
}

/// Number of operations waiting to be read.
pub open spec fn pending_len(bytes: Seq<u8>) -> int {
    let p = producer_of(bytes) as int;
    let c = consumer_of(bytes) as int;
    let n = slot_count_of(bytes) as int;
    if p >= c {
        p - c
    } else {
        p + n - c
    }
}

/// The slot `k` places after slot `c` in a ring of `n` slots.
pub open spec fn ring_index(c: int, k: int, n: int) -> int {
    if c + k < n {
        c + k
    } else {
        c + k - n
    }
}

/// The operation recorded in slot `i`: its kind and its payload.
pub open spec fn entry_at(bytes: Seq<u8>, slot_size: usize, i: int) -> (OperationKind, Seq<u8>) {
    let s = slot_at(slot_size, i);
    (s.spec_operation(bytes), s.spec_payload(bytes, s.spec_size(bytes) as int))
}

/// The operations waiting to be read, oldest first.
pub open spec fn pending(bytes: Seq<u8>, slot_size: usize) -> Seq<(OperationKind, Seq<u8>)> {
    let c = consumer_of(bytes) as int;
    let n = slot_count_of(bytes) as int;
    Seq::new(pending_len(bytes) as nat, |k: int| entry_at(bytes, slot_size, ring_index(c, k, n)))
}

/// The slots agree with the indices: every waiting slot is `Ready` with a
/// size that fits, and every other slot is `Empty` or `Complete`.
pub open spec fn coherent(bytes: Seq<u8>, slot_size: usize) -> bool {
    let c = consumer_of(bytes) as int;
    let n = slot_count_of(bytes) as int;
    let len = pending_len(bytes);
    &&& forall|k: int|
        #![trigger slot_at(slot_size, ring_index(c, k, n))]
        0 <= k < len ==> {
            let s = slot_at(slot_size, ring_index(c, k, n));
            &&& s.spec_status(bytes) == SlotStatus::Ready
            &&& s.spec_size(bytes) <= s.data_size
        }
    &&& forall|k: int|
        #![trigger slot_at(slot_size, ring_index(c, k, n))]
        len <= k < n ==> {
            let st = slot_at(slot_size, ring_index(c, k, n)).spec_status(bytes);
            st == SlotStatus::Empty || st == SlotStatus::Complete
        }
}

/// One attempt to claim the slot at the producer index. The ring counts
/// as full while `slot_count - 1` operations are waiting: one slot is always
/// left free, so that the producer index never catches up with the consumer
/// index (the two meeting is what an empty ring looks like). A full ring
/// claims nothing and changes nothing, so the writer waits. Otherwise the
/// producer index advances; the slot it pointed at is taken, and reset, only
/// when it is `Empty` or `Complete`.
pub open spec fn spec_claim(bytes: Seq<u8>, slot_size: usize) -> (Option<usize>, Seq<u8>) {
    let p = producer_of(bytes) as int;
    let c = consumer_of(bytes) as int;
    let n = slot_count_of(bytes) as int;
    let available = if p >= c {
        n - (p - c)
    } else {
        c - p
    };
    if available > 1 {
        let advanced = with_u64(bytes, PRODUCER_IDX_OFFSET as int, ((p + 1) % n) as u64);
        let s = slot_at(slot_size, p);
        let st = s.spec_status(advanced);
        if st == SlotStatus::Empty || st == SlotStatus::Complete {
            (Some(p as usize), s.spec_reset(advanced))
        } else {
            (None, advanced)
        }
    } else {
        (None, bytes)
    }
}

/// The region after an operation of kind `kind` with id `id`, stamped with
/// `timestamp` and carrying `data`, is put in slot `i`. The kind and id are
/// recorded first; the payload only when it fits.
pub open spec fn spec_fill(
    bytes: Seq<u8>,
    slot_size: usize,
    i: int,
    kind: OperationKind,
    id: Seq<u8>,
    timestamp: u64,
    data: Seq<u8>,
) -> Seq<u8> {
    let s = slot_at(slot_size, i);
    let m = s.metadata as int;
    let labelled = overwrite(
        with_u32(bytes, m + OPERATION_OFFSET, kind.spec_code()),
        m + ID_OFFSET,
        stored_id(id),
    );
    if data.len() > s.data_size {
        labelled
    } else {
        s.spec_store(labelled, data, timestamp)
    }
}

/// One read: nothing when the indices meet; otherwise the consumer index
/// advances and the slot it pointed at is read when it is `Ready` with a
/// size that fits (the slot becomes `Complete` and the completed count goes
/// up), and reset otherwise.
pub open spec fn spec_read(bytes: Seq<u8>, slot_size: usize) -> (
    Option<(OperationKind, Seq<u8>)>,
    Seq<u8>,
) {
    let p = producer_of(bytes) as int;
    let c = consumer_of(bytes) as int;
    let n = slot_count_of(bytes) as int;
    if p == c {
        (None, bytes)
    } else {
        let advanced = with_u64(bytes, CONSUMER_IDX_OFFSET as int, ((c + 1) % n) as u64);
        let s = slot_at(slot_size, c);
        let m = s.metadata as int;
        if s.spec_status(advanced) == SlotStatus::Ready && s.spec_size(advanced) <= s.data_size {
            (
                Some(
                    (
                        s.spec_operation(advanced),
                        s.spec_payload(advanced, s.spec_size(advanced) as int),
                    ),
                ),
                with_u64(
                    with_u32(advanced, m, SlotStatus::Complete.spec_code()),
                    OPERATIONS_COMPLETED_OFFSET as int,
                    wrapping_inc(completed_of(advanced)) as u64,
                ),
            )
        } else if s.spec_status(advanced) == SlotStatus::Ready {
            (None, s.spec_reset(with_u32(advanced, m, SlotStatus::Complete.spec_code())))
        } else {
            (None, s.spec_reset(advanced))
        }
    }
}

/// The region after the metadata of slots `0..k` is reset, in order.
pub open spec fn reset_slots(bytes: Seq<u8>, slot_size: usize, k: nat) -> Seq<u8>
    decreases k,
{
    if k == 0 {
        bytes
    } else {
        slot_at(slot_size, k - 1).spec_reset(reset_slots(bytes, slot_size, (k - 1) as nat))
    }
}

/// Two handles on ring buffers agree on everything but the region.
pub open spec fn same_settings(a: RingBuffer, b: RingBuffer) -> bool {
    &&& a.spec_size() == b.spec_size()
    &&& a.spec_slot_size() == b.spec_slot_size()
    &&& a.spec_is_producer() == b.spec_is_producer()
    &&& a.spec_path() == b.spec_path()
}

/// The result of a read with the payload taken as a sequence.
pub open spec fn read_view(r: Option<(OperationKind, Vec<u8>)>) -> Option<(OperationKind, Seq<u8>)> {
    match r {
        Some((k, v)) => Some((k, v@)),
        None => None,
    }
}

/// Slot `i` lies inside the region part of a ring with `n` slots.
pub proof fn lemma_slot_geometry(i: int, n: int, slot_size: int)
    requires
        0 <= i < n,
        0 <= slot_size,
    ensures
        0 <= i * slot_size,
        i * slot_size + slot_size <= n * slot_size,
{
    assert(0 <= i * slot_size) by (nonlinear_arith)
        requires
            0 <= i,
            0 <= slot_size,
    ;
    assert(i * slot_size + slot_size <= n * slot_size) by (nonlinear_arith)
        requires
            0 <= i < n,
            0 <= slot_size,
    ;
}

/// Distinct slots do not overlap.
pub proof fn lemma_slots_apart(i: int, j: int, slot_size: int)
    requires
        0 <= i < j,
        0 <= slot_size,
    ensures
        i * slot_size + slot_size <= j * slot_size,
{
    assert(i * slot_size + slot_size <= j * slot_size) by (nonlinear_arith)
        requires
            0 <= i < j,
            0 <= slot_size,
    ;
}

/// Slot `i` of a well laid-out ring fits in the region.
pub proof fn lemma_slot_fits(bytes: Seq<u8>, slot_size: usize, i: int)
    requires
        layout_ok(bytes, slot_size),
        0 <= i < slot_count_of(bytes),
    ensures
        slot_at(slot_size, i).fits(bytes.len()),
        slot_at(slot_size, i).metadata == HEADER_SIZE + i * slot_size,
        slot_at(slot_size, i).metadata >= HEADER_SIZE,
        slot_at(slot_size, i).metadata + slot_size <= bytes.len(),
{
    lemma_slot_geometry(i, slot_count_of(bytes) as int, slot_size as int);
}

/// Slot sizes below which `slot_count` slots fit in a region of `size`
/// bytes.
pub proof fn lemma_slot_count_fits(size: usize, slot_size: usize)
    requires
        size >= HEADER_SIZE,
        slot_size > 0,
    ensures
        HEADER_SIZE + spec_slot_count(size, slot_size) * slot_size <= size,
{
    let q = (size - HEADER_SIZE) / (slot_size as int);
    assert(q * slot_size <= size - HEADER_SIZE) by (nonlinear_arith)
        requires
            q == (size - HEADER_SIZE) / (slot_size as int),
            slot_size > 0,
            size - HEADER_SIZE >= 0,
    ;
}

/// Resetting slot metadata keeps the length of the region.
pub proof fn lemma_reset_slots_len(bytes: Seq<u8>, slot_size: usize, k: nat)
    ensures
        reset_slots(bytes, slot_size, k).len() == bytes.len(),
    decreases k,
{
    if k > 0 {
        lemma_reset_slots_len(bytes, slot_size, (k - 1) as nat);
    }
}

/// Resetting slot metadata leaves the header words alone.
pub proof fn lemma_reset_slots_header(bytes: Seq<u8>, slot_size: usize, k: nat, at: int)
    requires
        0 <= at,
        at + 8 <= HEADER_SIZE,
        HEADER_SIZE + k * slot_size <= bytes.len() <= usize::MAX,
        k == 0 || SLOT_METADATA_SIZE <= slot_size,
    ensures
        u64_at(reset_slots(bytes, slot_size, k), at) == u64_at(bytes, at),
    decreases k,
{
    if k > 0 {
        let prev = reset_slots(bytes, slot_size, (k - 1) as nat);
        lemma_reset_slots_len(bytes, slot_size, (k - 1) as nat);
        lemma_slot_geometry(k - 1, k as int, slot_size as int);
        assert(HEADER_SIZE + (k - 1) * slot_size <= bytes.len()) by (nonlinear_arith)
            requires
                HEADER_SIZE + k * slot_size <= bytes.len(),
                k >= 1,
        ;
        lemma_reset_slots_header(bytes, slot_size, (k - 1) as nat, at);
        let s = slot_at(slot_size, k - 1);
        assert(s.metadata >= HEADER_SIZE);
        assert(u64_at(s.spec_reset(prev), at) == u64_at(prev, at));
    }
}

/// Resetting slot metadata leaves the 32-bit header words as they were.
pub proof fn lemma_reset_slots_header_u32(bytes: Seq<u8>, slot_size: usize, k: nat, at: int)
    requires
        0 <= at,
        at + 4 <= HEADER_SIZE,
        HEADER_SIZE + k * slot_size <= bytes.len() <= usize::MAX,
        k == 0 || SLOT_METADATA_SIZE <= slot_size,
    ensures
        u32_at(reset_slots(bytes, slot_size, k), at) == u32_at(bytes, at),
    decreases k,
{
    if k > 0 {
        let prev = reset_slots(bytes, slot_size, (k - 1) as nat);
        lemma_reset_slots_len(bytes, slot_size, (k - 1) as nat);
        lemma_slot_geometry(k - 1, k as int, slot_size as int);
        assert(HEADER_SIZE + (k - 1) * slot_size <= bytes.len()) by (nonlinear_arith)
            requires
                HEADER_SIZE + k * slot_size <= bytes.len(),
                k >= 1,
        ;
        lemma_reset_slots_header_u32(bytes, slot_size, (k - 1) as nat, at);
        let s = slot_at(slot_size, k - 1);
        assert(s.metadata >= HEADER_SIZE);
        assert(u32_at(s.spec_reset(prev), at) == u32_at(prev, at));
    }
}

/// Backoff between attempts to claim a slot: up to ten waits, starting at
/// one millisecond and doubling up to a hundred.
pub struct SlotWait {
    attempt: u32,
    backoff_ms: u64,
}

impl SlotWait {
    /// The most failed attempts after which a writer still waits.
    pub const MAX_ATTEMPTS: u32 = 10;

    /// The longest wait between attempts, in milliseconds.
    pub const MAX_BACKOFF_MS: u64 = 100;

    /// Failed attempts so far.
    pub closed spec fn spec_attempt(&self) -> u32 {
        self.attempt
    }

    /// The wait that follows the next failed attempt, in milliseconds.
    pub closed spec fn spec_backoff_ms(&self) -> u64 {
        self.backoff_ms
    }

    /// A fresh backoff: no failed attempt yet, first wait one millisecond.
    pub fn new() -> (w: SlotWait)
        ensures
            w.spec_attempt() == 0,
            w.spec_backoff_ms() == 1,
    {
        SlotWait { attempt: 0, backoff_ms: 1 }
    }

    /// Records a failed attempt and says how long to wait before the next
    /// one, or `None` when the writer has to give up.
    pub fn next_delay(&mut self) -> (d: Option<u64>)
        requires
            old(self).spec_attempt() <= Self::MAX_ATTEMPTS,
            old(self).spec_backoff_ms() <= Self::MAX_BACKOFF_MS,
        ensures
            final(self).spec_attempt() == old(self).spec_attempt() + 1,
            old(self).spec_attempt() + 1 > Self::MAX_ATTEMPTS ==> {
                &&& d is None
                &&& final(self).spec_backoff_ms() == old(self).spec_backoff_ms()
            },
            old(self).spec_attempt() + 1 <= Self::MAX_ATTEMPTS ==> {
                &&& d == Some(old(self).spec_backoff_ms())
                &&& final(self).spec_backoff_ms() == if 2 * old(self).spec_backoff_ms()
                    < Self::MAX_BACKOFF_MS {
                    2 * old(self).spec_backoff_ms()
                } else {
                    Self::MAX_BACKOFF_MS as int
                }
            },
            final(self).spec_backoff_ms() <= Self::MAX_BACKOFF_MS,
    {
        self.attempt = self.attempt + 1;
        if self.attempt > Self::MAX_ATTEMPTS {
            return None;
        }
        let delay = self.backoff_ms;
        self.backoff_ms = if self.backoff_ms * 2 < Self::MAX_BACKOFF_MS {
            self.backoff_ms * 2
        } else {
            Self::MAX_BACKOFF_MS
        };
        Some(delay)
    }
}

impl RingBuffer {
    /// The bytes of the region.
    pub closed spec fn bytes(&self) -> Seq<u8> {
        mapped_bytes(self.mmap)
    }

    /// Slot size the buffer was created or opened with.
    pub closed spec fn spec_slot_size(&self) -> usize {
        self.slot_size
    }

    /// Total size the buffer was created or opened with.
    pub closed spec fn spec_size(&self) -> usize {
        self.size
    }

    /// Whether this instance counts as a producer.
    pub closed spec fn spec_is_producer(&self) -> bool {
        self.is_producer
    }

    /// The path of the shared memory file.
    pub closed spec fn spec_path(&self) -> std::path::PathBuf {
        self.path
    }

    /// The region is laid out as a ring buffer.
    pub open spec fn wf(&self) -> bool {
        layout_ok(self.bytes(), self.spec_slot_size())
    }

    /// The region holds a whole header, so its words can be read and
    /// written.
    pub open spec fn header_readable(&self) -> bool {
        HEADER_SIZE <= self.bytes().len() <= usize::MAX
    }

    /// The operations waiting to be read, oldest first.
    pub open spec fn queue(&self) -> Seq<(OperationKind, Seq<u8>)> {
        pending(self.bytes(), self.spec_slot_size())
    }

    /// Initializes a ring buffer in a freshly mapped region of
    /// `options.size` bytes: writes the header, recording `numa_node` as the
    /// NUMA node of the ring's memory (0 for memory that was not bound),
    /// counts this instance as a producer and resets every slot.
    pub fn create_in(mmap: MmapMut, options: RingBufferOptions, numa_node: u32) -> (ring:
        RingBuffer)
        requires
            mapped_bytes(mmap).len() == options.size,
            options.size >= HEADER_SIZE,
            options.slot_size > 0,
            spec_slot_count(options.size, options.slot_size) == 0 || options.slot_size
                >= SLOT_METADATA_SIZE,
        ensures
            ring.wf(),
            ring.spec_size() == options.size,
            ring.spec_slot_size() == options.slot_size,
            ring.spec_is_producer(),
            ring.spec_path() == options.path,
            exists|h: RingHeader|
                {
                    &&& h.magic == RingHeader::MAGIC
                    &&& h.version == RingHeader::VERSION
                    &&& h.size == options.size
                    &&& h.slot_size == options.slot_size
                    &&& h.slot_count == spec_slot_count(options.size, options.slot_size)
                    &&& h.producer_idx == 0
                    &&& h.consumer_idx == 0
                    &&& h.active_producers == 1
                    &&& h.operations_completed == 0
                    &&& clock_secs(h.created_at)
                    &&& h._padding@ == spec_u32_to_le_bytes(numa_node) + Seq::new(
                        60,
                        |i: int| 0u8,
                    )
                    &&& ring.bytes() == reset_slots(
                        overwrite(mapped_bytes(mmap), 0, h.spec_encode()),
                        options.slot_size,
                        h.slot_count as nat,
                    )
                },
            u32_at(ring.bytes(), NUMA_NODE_OFFSET as int) == numa_node,
    {
        let mut mmap = mmap;
        let len = region_len(&mmap);
        let mut header = RingHeader::new(options.size, options.slot_size);
        header.register_producer();
        header.set_numa_node(numa_node);
        assert(header._padding@ =~= spec_u32_to_le_bytes(numa_node) + Seq::new(60, |i: int| 0u8));
        header.store(&mut mmap);
        let slot_count = header.slot_count;
        let ghost b0 = mapped_bytes(mmap);
        proof {
            crate::ring::header::lemma_encode_words(header);
            lemma_slot_count_fits(options.size, options.slot_size);
        }
        let mut i: usize = 0;
        while i < slot_count
            invariant
                0 <= i <= slot_count,
                slot_count == spec_slot_count(options.size, options.slot_size),
                len == options.size,
                options.size >= HEADER_SIZE,
                options.slot_size > 0,
                slot_count == 0 || options.slot_size >= SLOT_METADATA_SIZE,
                HEADER_SIZE + slot_count * options.slot_size <= options.size,
                b0.len() == options.size,
                mapped_bytes(mmap) == reset_slots(b0, options.slot_size, i as nat),
            decreases slot_count - i,
        {
            proof {
                lemma_slot_geometry(i as int, slot_count as int, options.slot_size as int);
            }
            let slot = Slot::from_ptr(HEADER_SIZE + i * options.slot_size, options.slot_size);
            assert(slot == slot_at(options.slot_size, i as int));
            proof {
                lemma_reset_slots_len(b0, options.slot_size, i as nat);
            }
            slot.reset(&mut mmap);
            i = i + 1;
        }
        let ring = RingBuffer {
            mmap,
            path: options.path,
            size: options.size,
            slot_size: options.slot_size,
            is_producer: true,
        };
        proof {
            lemma_reset_slots_header(b0, options.slot_size, slot_count as nat, SLOT_COUNT_OFFSET as int);
            lemma_reset_slots_header(b0, options.slot_size, slot_count as nat, PRODUCER_IDX_OFFSET as int);
            lemma_reset_slots_header(b0, options.slot_size, slot_count as nat, CONSUMER_IDX_OFFSET as int);
            lemma_reset_slots_len(b0, options.slot_size, slot_count as nat);
            let e = header.spec_encode();
            assert(b0.subrange(NUMA_NODE_OFFSET as int, NUMA_NODE_OFFSET + 4) =~= e.subrange(
                PADDING_OFFSET as int,
                HEADER_ENCODED_LEN as int,
            ).subrange(0, 4));
            assert(header._padding@.subrange(0, 4) =~= spec_u32_to_le_bytes(numa_node));
            vstd::bytes::lemma_auto_spec_u32_to_from_le_bytes();
            assert(u32_at(b0, NUMA_NODE_OFFSET as int) == numa_node);
            lemma_reset_slots_header_u32(
                b0,
                options.slot_size,
                slot_count as nat,
                NUMA_NODE_OFFSET as int,
            );
        }
        ring
    }

    /// Opens the ring buffer held by a mapped region. The region must hold
    /// a whole header that passes the checks of `RingHeader::validate`: the
    /// magic value and version, a size beyond the header, and non-empty
    /// slots; otherwise the result is `InvalidHeader`. The sizes recorded in
    /// the header win over those in `options`. Whether the ring can be used
    /// is a separate question, answered by `is_usable`: a header can pass
    /// these checks and still describe slots smaller than their metadata,
    /// an index past the slot count, or slots beyond the end of the region.
    pub fn open_in(mmap: MmapMut, options: RingBufferOptions) -> (r: Result<RingBuffer, RingError>)
        ensures
            r is Err ==> r == Err::<RingBuffer, RingError>(RingError::InvalidHeader),
            r matches Ok(ring) ==> {
                &&& ring.header_readable()
                &&& ring.bytes() == mapped_bytes(mmap)
                &&& !ring.spec_is_producer()
                &&& ring.spec_path() == options.path
                &&& ring.spec_size() == header_usize(mapped_bytes(mmap), SIZE_OFFSET as int)
                &&& ring.spec_slot_size() == header_usize(
                    mapped_bytes(mmap),
                    SLOT_SIZE_OFFSET as int,
                )
                &&& ring.wf() == layout_ok(
                    mapped_bytes(mmap),
                    header_usize(mapped_bytes(mmap), SLOT_SIZE_OFFSET as int),
                )
            },
            ({
                let b = mapped_bytes(mmap);
                r is Ok <==> HEADER_SIZE <= b.len() && spec_words_valid(b)
            }),
    {
        let len = region_len(&mmap);
        if len < HEADER_SIZE {
            return Err(RingError::InvalidHeader);
        }
        let header = RingHeader::load(&mmap);
        if !header.validate() {
            return Err(RingError::InvalidHeader);
        }
        Ok(
            RingBuffer {
                mmap,
                path: options.path,
                size: header.size,
                slot_size: header.slot_size,
                is_producer: false,
            },
        )
    }

    /// Whether the ring can be used: its slots are large enough for their
    /// metadata, its indices point at slots, and its slots lie within the
    /// region. Reads and writes need a usable ring.
    pub fn is_usable(&self) -> (b: bool)
        requires
            self.header_readable(),
        ensures
            b == self.wf(),
    {
        let len = region_len(&self.mmap);
        let n = read_u64(&self.mmap, SLOT_COUNT_OFFSET) as usize;
        let producer = read_u64(&self.mmap, PRODUCER_IDX_OFFSET) as usize;
        let consumer = read_u64(&self.mmap, CONSUMER_IDX_OFFSET) as usize;
        let ss = self.slot_size;
        if ss == 0 {
            return false;
        }
        if n == 0 {
            return producer == 0 && consumer == 0;
        }
        if ss < SLOT_METADATA_SIZE || producer >= n || consumer >= n {
            return false;
        }
        if n > (len - HEADER_SIZE) / ss {
            proof {
                let q = (len - HEADER_SIZE) / (ss as int);
                assert(n * ss > len - HEADER_SIZE) by (nonlinear_arith)
                    requires
                        n > q,
                        q == (len - HEADER_SIZE) / (ss as int),
                        ss > 0,
                        len - HEADER_SIZE >= 0,
                ;
            }
            return false;
        }
        proof {
            let q = (len - HEADER_SIZE) / (ss as int);
            assert(n * ss <= len - HEADER_SIZE) by (nonlinear_arith)
                requires
                    n <= q,
                    q == (len - HEADER_SIZE) / (ss as int),
                    ss > 0,
                    len - HEADER_SIZE >= 0,
            ;
        }
        true
    }

    /// Slot `idx` of this ring.
    fn slot(&self, idx: usize) -> (s: Slot)
        requires
            self.wf(),
            idx < slot_count_of(self.bytes()),
        ensures
            s == slot_at(self.spec_slot_size(), idx as int),
            s.fits(self.bytes().len()),
    {
        proof {
            lemma_slot_fits(self.bytes(), self.slot_size, idx as int);
        }
        Slot::from_ptr(HEADER_SIZE + idx * self.slot_size, self.slot_size)
    }

    /// Takes the producer index: returns it and advances it by one, wrapping
    /// around at the slot count.
    fn take_producer_idx(&mut self) -> (idx: usize)
        requires
            old(self).wf(),
            slot_count_of(old(self).bytes()) > 0,
        ensures
            idx == producer_of(old(self).bytes()),
            final(self).bytes() == with_u64(
                old(self).bytes(),
                PRODUCER_IDX_OFFSET as int,
                ((idx + 1) % (slot_count_of(old(self).bytes()) as int)) as u64,
            ),
            final(self).wf(),
            same_settings(*old(self), *final(self)),
    {
        let n = read_u64(&self.mmap, SLOT_COUNT_OFFSET) as usize;
        let current = read_u64(&self.mmap, PRODUCER_IDX_OFFSET) as usize;
        write_u64(&mut self.mmap, PRODUCER_IDX_OFFSET, ((current + 1) % n) as u64);
        current
    }

    /// Takes the consumer index: returns it and advances it by one, wrapping
    /// around at the slot count.
    fn take_consumer_idx(&mut self) -> (idx: usize)
        requires
            old(self).wf(),
            slot_count_of(old(self).bytes()) > 0,
        ensures
            idx == consumer_of(old(self).bytes()),
            final(self).bytes() == with_u64(
                old(self).bytes(),
                CONSUMER_IDX_OFFSET as int,
                ((idx + 1) % (slot_count_of(old(self).bytes()) as int)) as u64,
            ),
            final(self).wf(),
            same_settings(*old(self), *final(self)),
    {
        let n = read_u64(&self.mmap, SLOT_COUNT_OFFSET) as usize;
        let current = read_u64(&self.mmap, CONSUMER_IDX_OFFSET) as usize;
        write_u64(&mut self.mmap, CONSUMER_IDX_OFFSET, ((current + 1) % n) as u64);
        current
    }

    /// Reads the operation at the consumer index, if any. When the producer
    /// and consumer indices meet there is nothing to read. Otherwise the
    /// consumer index advances; a `Ready` slot whose size fits yields its
    /// kind and payload, becomes `Complete` and counts as a completed
    /// operation; any other slot is reset and yields nothing.
    pub fn read(&mut self) -> (r: Result<Option<(OperationKind, Vec<u8>)>, RingError>)
        requires
            old(self).wf(),
        ensures
            final(self).wf(),
            same_settings(*old(self), *final(self)),
            r matches Ok(got) && read_view(got) == spec_read(
                old(self).bytes(),
                old(self).spec_slot_size(),
            ).0,
            final(self).bytes() == spec_read(old(self).bytes(), old(self).spec_slot_size()).1,
    {
        let producer_idx = read_u64(&self.mmap, PRODUCER_IDX_OFFSET) as usize;
        let consumer_idx = read_u64(&self.mmap, CONSUMER_IDX_OFFSET) as usize;
        if producer_idx == consumer_idx {
            return Ok(None);
        }
        let slot_idx = self.take_consumer_idx();
        let slot = self.slot(slot_idx);
        let ghost advanced = self.bytes();
        proof {
            lemma_slot_fits(advanced, self.slot_size, slot_idx as int);
        }
        if slot.status(&self.mmap) == SlotStatus::Ready {
            let kind = slot.operation(&self.mmap);
            let data = slot.read_data(&mut self.mmap);
            match data {
                Some(data) => {
                    self.increment_completed();
                    return Ok(Some((kind, data)));
                },
                None => {},
            }
        }
        slot.reset(&mut self.mmap);
        Ok(None)
    }

    /// Adds one, wrapping, to the completed operation count.
    fn increment_completed(&mut self)
        requires
            old(self).wf(),
        ensures
            final(self).bytes() == with_u64(
                old(self).bytes(),
                OPERATIONS_COMPLETED_OFFSET as int,
                wrapping_inc(completed_of(old(self).bytes())) as u64,
            ),
            final(self).wf(),
            same_settings(*old(self), *final(self)),
    {
        let done = read_u64(&self.mmap, OPERATIONS_COMPLETED_OFFSET) as usize;
        let next = if done == usize::MAX {
            0
        } else {
            done + 1
        };
        write_u64(&mut self.mmap, OPERATIONS_COMPLETED_OFFSET, next as u64);
    }

    /// Returns the largest payload a slot can hold: the slot size less the
    /// slot metadata.
    pub fn max_payload_size(&self) -> (n: usize)
        requires
            self.spec_slot_size() >= SLOT_METADATA_SIZE,
        ensures
            n == self.spec_slot_size() - SLOT_METADATA_SIZE,
    {
        self.slot_size - SLOT_METADATA_SIZE
    }

    /// One attempt to claim a slot for writing (see `spec_claim`: a ring
    /// with one free slot left counts as full). When a slot is available
    /// the producer index advances; the slot it pointed at is taken, and
    /// reset, when it is `Empty` or `Complete`.
    pub fn claim_slot(&mut self) -> (r: Option<usize>)
        requires
            old(self).wf(),
        ensures
            final(self).wf(),
            same_settings(*old(self), *final(self)),
            (r, final(self).bytes()) == spec_claim(old(self).bytes(), old(self).spec_slot_size()),
            r matches Some(i) ==> i < slot_count_of(final(self).bytes()),
    {
        let slot_count = read_u64(&self.mmap, SLOT_COUNT_OFFSET) as usize;
        let producer_idx = read_u64(&self.mmap, PRODUCER_IDX_OFFSET) as usize;
        let consumer_idx = read_u64(&self.mmap, CONSUMER_IDX_OFFSET) as usize;
        let available_slots = if producer_idx >= consumer_idx {
            slot_count - (producer_idx - consumer_idx)
        } else {
            consumer_idx - producer_idx
        };
        if available_slots > 1 {
            let slot_idx = self.take_producer_idx();
            let slot = self.slot(slot_idx);
            proof {
                lemma_slot_fits(self.bytes(), self.slot_size, slot_idx as int);
            }
            if slot.status(&self.mmap) == SlotStatus::Empty || slot.status(&self.mmap)
                == SlotStatus::Complete {
                slot.reset(&mut self.mmap);
                return Some(slot_idx);
            }
        }
        None
    }

    /// Puts an operation in slot `idx`: records its kind and id, then stores
    /// the payload stamped with `timestamp`. Fails with `DataTooLarge`,
    /// after recording kind and id, when the payload does not fit.
    pub fn fill_slot(
        &mut self,
        idx: usize,
        kind: OperationKind,
        id: &Uuid,
        timestamp: u64,
        data: &[u8],
    ) -> (r: Result<usize, RingError>)
        requires
            old(self).wf(),
            idx < slot_count_of(old(self).bytes()),
        ensures
            final(self).wf(),
            same_settings(*old(self), *final(self)),
            final(self).bytes() == spec_fill(
                old(self).bytes(),
                old(self).spec_slot_size(),
                idx as int,
                kind,
                uuid_bytes(*id),
                timestamp,
                data@,
            ),
            r == if data@.len() > slot_at(old(self).spec_slot_size(), idx as int).data_size {
                Err::<usize, RingError>(RingError::DataTooLarge)
            } else {
                Ok::<usize, RingError>(idx)
            },
    {
        let slot = self.slot(idx);
        proof {
            lemma_slot_fits(self.bytes(), self.slot_size, idx as int);
        }
        slot.set_operation(&mut self.mmap, kind);
        slot.set_id(&mut self.mmap, id);
        match slot.write_data_at(&mut self.mmap, data, timestamp) {
            Ok(()) => Ok(idx),
            Err(_) => Err(RingError::DataTooLarge),
        }
    }

    /// Puts an operation in slot `idx` under a fresh random id, stamped with
    /// the current time.
    pub fn write_to_slot(&mut self, idx: usize, kind: OperationKind, data: &[u8]) -> (r: Result<
        usize,
        RingError,
    >)
        requires
            old(self).wf(),
            idx < slot_count_of(old(self).bytes()),
        ensures
            final(self).wf(),
            same_settings(*old(self), *final(self)),
            exists|id: Seq<u8>, timestamp: u64|
                random_id_bits(id) && clock_secs(timestamp) && final(self).bytes() == spec_fill(
                    old(self).bytes(),
                    old(self).spec_slot_size(),
                    idx as int,
                    kind,
                    id,
                    timestamp,
                    data@,
                ),
            r == if data@.len() > slot_at(old(self).spec_slot_size(), idx as int).data_size {
                Err::<usize, RingError>(RingError::DataTooLarge)
            } else {
                Ok::<usize, RingError>(idx)
            },
    {
        let id = uuid_new_v4();
        let timestamp = unix_time_secs();
        assert(random_id_bits(uuid_bytes(id)));
        assert(clock_secs(timestamp));
        self.fill_slot(idx, kind, &id, timestamp, data)
    }

    /// One attempt at writing an operation. A payload larger than a slot
    /// holds fails at once. Otherwise the ring tries to claim a slot: when it
    /// gets one the operation goes there under a fresh id; when it does not,
    /// `wait` records the failed attempt and says how long to wait before the
    /// next one, or, after the last allowed attempt, the write fails as full.
    pub fn write_step(&mut self, wait: &mut SlotWait, kind: OperationKind, data: &[u8]) -> (step:
        WriteStep)
        requires
            old(self).wf(),
            old(self).spec_slot_size() >= SLOT_METADATA_SIZE,
            old(wait).spec_attempt() <= SlotWait::MAX_ATTEMPTS,
            old(wait).spec_backoff_ms() <= SlotWait::MAX_BACKOFF_MS,
        ensures
            final(self).wf(),
            same_settings(*old(self), *final(self)),
            data@.len() > old(self).spec_slot_size() - SLOT_METADATA_SIZE ==> {
                &&& step == WriteStep::Failed(RingError::DataTooLarge)
                &&& final(self).bytes() == old(self).bytes()
                &&& *final(wait) == *old(wait)
            },
            data@.len() <= old(self).spec_slot_size() - SLOT_METADATA_SIZE && spec_claim(
                old(self).bytes(),
                old(self).spec_slot_size(),
            ).0 is Some ==> {
                let i = spec_claim(old(self).bytes(), old(self).spec_slot_size()).0->0;
                &&& step == WriteStep::Written(i)
                &&& *final(wait) == *old(wait)
                &&& exists|id: Seq<u8>, timestamp: u64|
                    random_id_bits(id) && clock_secs(timestamp) && final(self).bytes() == spec_fill(
                        spec_claim(old(self).bytes(), old(self).spec_slot_size()).1,
                        old(self).spec_slot_size(),
                        i as int,
                        kind,
                        id,
                        timestamp,
                        data@,
                    )
            },
            data@.len() <= old(self).spec_slot_size() - SLOT_METADATA_SIZE && spec_claim(
                old(self).bytes(),
                old(self).spec_slot_size(),
            ).0 is None ==> {
                &&& final(self).bytes() == spec_claim(
                    old(self).bytes(),
                    old(self).spec_slot_size(),
                ).1
                &&& final(wait).spec_attempt() == old(wait).spec_attempt() + 1
                &&& step == if old(wait).spec_attempt() + 1 > SlotWait::MAX_ATTEMPTS {
                    WriteStep::Failed(RingError::Full { attempts: SlotWait::MAX_ATTEMPTS })
                } else {
                    WriteStep::Wait(old(wait).spec_backoff_ms())
                }
                &&& final(wait).spec_backoff_ms() <= SlotWait::MAX_BACKOFF_MS
            },
    {
        if data.len() > self.max_payload_size() {
            return WriteStep::Failed(RingError::DataTooLarge);
        }
        let ghost ss = self.spec_slot_size();
        match self.claim_slot() {
            Some(idx) => {
                let ghost claimed = self.bytes();
                let r = self.write_to_slot(idx, kind, data);
                proof {
                    let (id, timestamp) = choose|id: Seq<u8>, timestamp: u64|
                        random_id_bits(id) && clock_secs(timestamp) && self.bytes() == spec_fill(
                            claimed,
                            ss,
                            idx as int,
                            kind,
                            id,
                            timestamp,
                            data@,
                        );
                    assert(random_id_bits(id) && clock_secs(timestamp) && self.bytes() == spec_fill(
                        claimed,
                        ss,
                        idx as int,
                        kind,
                        id,
                        timestamp,
                        data@,
                    ));
                }
                assert(spec_claim(old(self).bytes(), ss).0 == Some(idx));
                assert(spec_claim(old(self).bytes(), ss).1 == claimed);
                assert(r == Ok::<usize, RingError>(idx));
                match r {
                    Ok(i) => WriteStep::Written(i),
                    Err(e) => WriteStep::Failed(e),
                }
            },
            None => match wait.next_delay() {
                Some(ms) => WriteStep::Wait(ms),
                None => WriteStep::Failed(RingError::Full { attempts: SlotWait::MAX_ATTEMPTS }),
            },
        }
    }

    /// The node mask to bind a new ring's memory to NUMA node `numa_node`,
    /// or `None` when the ring is made without binding because NUMA is not
    /// available or there is no such node.
    pub fn numa_binding(cpu_info: &CpuInfo, numa_node: usize) -> (mask: Option<u64>)
        requires
            cpu_info@.numa_available && numa_node < cpu_info@.numa_nodes.len() ==> numa_node < 64,
        ensures
            mask == if cpu_info@.numa_available && numa_node < cpu_info@.numa_nodes.len() {
                Some(1u64 << numa_node)
            } else {
                None::<u64>
            },
    {
        if !cpu_info.is_numa_available() || numa_node >= cpu_info.numa_nodes().len() {
            return None;
        }
        Some(1u64 << numa_node)
    }

    /// Returns the NUMA node recorded in the header: the node the ring's
    /// memory was bound to, 0 when it was not bound.
    pub fn numa_node(&self) -> (n: u32)
        requires
            self.header_readable(),
        ensures
            n == u32_at(self.bytes(), NUMA_NODE_OFFSET as int),
    {
        read_u32(&self.mmap, NUMA_NODE_OFFSET)
    }

    /// Returns the mapped region the ring lives in.
    pub fn region(&self) -> (m: &MmapMut)
        ensures
            mapped_bytes(*m) == self.bytes(),
    {
        &self.mmap
    }

    /// Returns the path to the shared memory file.
    pub fn path(&self) -> (p: &std::path::PathBuf)
        ensures
            *p == self.spec_path(),
    {
        &self.path
    }

    /// Returns the size of the ring buffer in bytes.
    pub fn size(&self) -> (n: usize)
        ensures
            n == self.spec_size(),
    {
        self.size
    }

    /// Returns the size of each slot in bytes.
    pub fn slot_size(&self) -> (n: usize)
        ensures
            n == self.spec_slot_size(),
    {
        self.slot_size
    }

    /// Returns the number of slots, as the header records it.
    pub fn slot_count(&self) -> (n: usize)
        requires
            self.header_readable(),
        ensures
            n == slot_count_of(self.bytes()),
    {
        read_u64(&self.mmap, SLOT_COUNT_OFFSET) as usize
    }

    /// Returns the number of active producers, as the header records it.
    pub fn active_producers(&self) -> (n: usize)
        requires
            self.header_readable(),
        ensures
            n == active_producers_of(self.bytes()),
    {
        read_u64(&self.mmap, ACTIVE_PRODUCERS_OFFSET) as usize
    }

    /// Returns the number of completed operations, as the header records it.
    pub fn operations_completed(&self) -> (n: usize)
        requires
            self.header_readable(),
        ensures
            n == completed_of(self.bytes()),
    {
        read_u64(&self.mmap, OPERATIONS_COMPLETED_OFFSET) as usize
    }

    /// Returns the creation timestamp, as the header records it.
    pub fn created_at(&self) -> (t: u64)
        requires
            self.header_readable(),
        ensures
            t == u64_at(self.bytes(), CREATED_AT_OFFSET as int),
    {
        read_u64(&self.mmap, CREATED_AT_OFFSET)
    }

    /// Returns whether this instance counts as a producer.
    pub fn is_producer(&self) -> (b: bool)
        ensures
            b == self.spec_is_producer(),
    {
        self.is_producer
    }

    /// Counts this instance as a producer, once: the active producer count
    /// goes up by one unless it already counts.
    pub fn register_as_producer(&mut self)
        requires
            old(self).header_readable(),
        ensures
            final(self).header_readable(),
            final(self).wf() == old(self).wf(),
            final(self).spec_is_producer(),
            final(self).spec_size() == old(self).spec_size(),
            final(self).spec_slot_size() == old(self).spec_slot_size(),
            final(self).spec_path() == old(self).spec_path(),
            final(self).bytes() == if old(self).spec_is_producer() {
                old(self).bytes()
            } else {
                with_u64(
                    old(self).bytes(),
                    ACTIVE_PRODUCERS_OFFSET as int,
                    wrapping_inc(active_producers_of(old(self).bytes())) as u64,
                )
            },
    {
        if !self.is_producer {
            let active = read_u64(&self.mmap, ACTIVE_PRODUCERS_OFFSET) as usize;
            let next = if active == usize::MAX {
                0
            } else {
                active + 1
            };
            write_u64(&mut self.mmap, ACTIVE_PRODUCERS_OFFSET, next as u64);
            self.is_producer = true;
        }
    }

    /// Stops counting this instance as a producer: the active producer count
    /// goes down by one if it counted.
    pub fn unregister_as_producer(&mut self)
        requires
            old(self).header_readable(),
        ensures
            final(self).header_readable(),
            final(self).wf() == old(self).wf(),
            !final(self).spec_is_producer(),
            final(self).spec_size() == old(self).spec_size(),
            final(self).spec_slot_size() == old(self).spec_slot_size(),
            final(self).spec_path() == old(self).spec_path(),
            final(self).bytes() == if old(self).spec_is_producer() {
                with_u64(
                    old(self).bytes(),
                    ACTIVE_PRODUCERS_OFFSET as int,
                    wrapping_dec(active_producers_of(old(self).bytes())) as u64,
                )
            } else {
                old(self).bytes()
            },
    {
        if self.is_producer {
            let active = read_u64(&self.mmap, ACTIVE_PRODUCERS_OFFSET) as usize;
            let next = if active == 0 {
                usize::MAX
            } else {
                active - 1
            };
            write_u64(&mut self.mmap, ACTIVE_PRODUCERS_OFFSET, next as u64);
            self.is_producer = false;
        }
    }

    /// Whether the sizes the region records differ from those asked for in
    /// `options`.
    pub fn differs_from(&self, options: &RingBufferOptions) -> (b: bool)
        ensures
            b == (self.spec_size() != options.size || self.spec_slot_size() != options.slot_size),
    {
        self.size != options.size || self.slot_size != options.slot_size
    }
}

} // verus!
