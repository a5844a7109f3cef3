//! Header of the ring buffer: identification, geometry and the counters that
//! producers and the consumer share.
//!
//! In the mapped region the header occupies the first `HEADER_SIZE` bytes.
//! Its fields are stored as little-endian 64-bit words in declaration order
//! (offsets 0, 8, ..., 72), followed by the 64 padding bytes, the first four
//! of which record the NUMA node of the ring's memory; the rest of the block
//! up to `HEADER_SIZE` is unused so that the first slot starts on a 64-byte
//! boundary.

use crate::ring::region::{
    group_region_lemmas, mapped_bytes, overwrite, read_bytes, read_u64, u64_at, write_bytes,
};
use crate::ring::slot::{clock_secs, unix_time_secs};
use memmap2::MmapMut;
use vstd::bytes::{
    spec_u32_from_le_bytes, spec_u32_to_le_bytes, spec_u64_to_le_bytes, u32_from_le_bytes,
    u32_to_le_bytes, u64_to_le_bytes,
};
use vstd::prelude::*;

verus! {

broadcast use group_region_lemmas;

/// Size of the header padding in bytes.
pub const HEADER_PADDING_SIZE: usize = 64;

/// Size of the header block at the start of the region.
pub const HEADER_SIZE: usize = 192;

/// Number of header bytes that carry fields and padding.
pub const HEADER_ENCODED_LEN: usize = 144;

/// Offset of the magic word.
pub const MAGIC_OFFSET: usize = 0;

/// Offset of the format version word.
pub const VERSION_OFFSET: usize = 8;

/// Offset of the total size word.
pub const SIZE_OFFSET: usize = 16;

/// Offset of the slot size word.
pub const SLOT_SIZE_OFFSET: usize = 24;

/// Offset of the slot count word.
pub const SLOT_COUNT_OFFSET: usize = 32;

/// Offset of the producer index word.
pub const PRODUCER_IDX_OFFSET: usize = 40;

/// Offset of the consumer index word.
pub const CONSUMER_IDX_OFFSET: usize = 48;

/// Offset of the active producer count word.
pub const ACTIVE_PRODUCERS_OFFSET: usize = 56;

/// Offset of the completed operation count word.
pub const OPERATIONS_COMPLETED_OFFSET: usize = 64;

/// Offset of the creation timestamp word.
pub const CREATED_AT_OFFSET: usize = 72;

/// Offset of the padding bytes.
pub const PADDING_OFFSET: usize = 80;

/// Offset of the NUMA node word: the first four padding bytes hold, as a
/// little-endian 32-bit word, the NUMA node the ring's memory was bound to
/// (0 when it was not bound).
pub const NUMA_NODE_OFFSET: usize = 80;

/// Ring buffer header.
pub struct RingHeader {
    /// Magic value identifying a ring buffer.
    pub magic: u64,
    /// Version of the ring buffer format.
    pub version: u64,
    /// Size of the entire ring buffer in bytes.
    pub size: usize,
    /// Size of each slot in bytes.
    pub slot_size: usize,
    /// Number of slots.
    pub slot_count: usize,
    /// Producer index (next slot to be written).
    pub producer_idx: usize,
    /// Consumer index (next slot to be read).
    pub consumer_idx: usize,
    /// Count of active producers.
    pub active_producers: usize,
    /// Count of operations completed.
    pub operations_completed: usize,
    /// Creation timestamp (seconds since the Unix epoch).
    pub created_at: u64,
    /// Padding that keeps the header apart from the first slot.
    pub _padding: [u8; HEADER_PADDING_SIZE],
}

/// `x + 1`, wrapping around at the top of the range of `usize`.
pub open spec fn wrapping_inc(x: usize) -> usize {
    if x == usize::MAX {
        0
    } else {
        (x + 1) as usize
    }
}

/// `x - 1`, wrapping around at the bottom of the range of `usize`.
pub open spec fn wrapping_dec(x: usize) -> usize {
    if x == 0 {
        usize::MAX
    } else {
        (x - 1) as usize
    }
}

/// The number of slots a region of `size` bytes holds after its header.
pub open spec fn spec_slot_count(size: usize, slot_size: usize) -> usize
    recommends
        size >= HEADER_SIZE,
        slot_size > 0,
{
    ((size - HEADER_SIZE) / (slot_size as int)) as usize
}

/// A header word, as the `usize` it stands for.
pub open spec fn header_usize(bytes: Seq<u8>, offset: int) -> usize {
    u64_at(bytes, offset) as usize
}

/// The header words of the region pass the checks of `validate`.
pub open spec fn spec_words_valid(bytes: Seq<u8>) -> bool {
    &&& u64_at(bytes, MAGIC_OFFSET as int) == RingHeader::MAGIC
    &&& u64_at(bytes, VERSION_OFFSET as int) == RingHeader::VERSION
    &&& header_usize(bytes, SIZE_OFFSET as int) > HEADER_SIZE
    &&& header_usize(bytes, SLOT_SIZE_OFFSET as int) > 0
    &&& header_usize(bytes, SLOT_COUNT_OFFSET as int) > 0
}

impl RingHeader {
    /// Magic value identifying a ring buffer ("ELGATERB").
    pub const MAGIC: u64 = 0x454C_4741_5445_5242;

    /// Current version of the ring buffer format.
    pub const VERSION: u64 = 1;

    /// The header is well-formed: the checks of `validate`.
    pub open spec fn spec_valid(&self) -> bool {
        &&& self.magic == Self::MAGIC
        &&& self.version == Self::VERSION
        &&& self.size > HEADER_SIZE
        &&& self.slot_size > 0
        &&& self.slot_count > 0
    }

    /// The header bytes as they are laid out in the region.
    pub open spec fn spec_encode(&self) -> Seq<u8> {
        spec_u64_to_le_bytes(self.magic) + spec_u64_to_le_bytes(self.version)
            + spec_u64_to_le_bytes(self.size as u64) + spec_u64_to_le_bytes(self.slot_size as u64)
            + spec_u64_to_le_bytes(self.slot_count as u64) + spec_u64_to_le_bytes(
            self.producer_idx as u64,
        ) + spec_u64_to_le_bytes(self.consumer_idx as u64) + spec_u64_to_le_bytes(
            self.active_producers as u64,
        ) + spec_u64_to_le_bytes(self.operations_completed as u64) + spec_u64_to_le_bytes(
            self.created_at,
        ) + self._padding@
    }

    /// Creates a header for a region of `size` bytes divided into slots of
    /// `slot_size` bytes, created at `created_at`.
    pub fn new_created_at(size: usize, slot_size: usize, created_at: u64) -> (h: RingHeader)
        requires
            size >= HEADER_SIZE,
            slot_size > 0,
        ensures
            h.magic == Self::MAGIC,
            h.version == Self::VERSION,
            h.size == size,
            h.slot_size == slot_size,
            h.slot_count == spec_slot_count(size, slot_size),
            h.producer_idx == 0,
            h.consumer_idx == 0,
            h.active_producers == 0,
            h.operations_completed == 0,
            h.created_at == created_at,
            h._padding@ == Seq::new(HEADER_PADDING_SIZE as nat, |i: int| 0u8),
    {
        let slot_count = (size - HEADER_SIZE) / slot_size;
        let h = RingHeader {
            magic: Self::MAGIC,
            version: Self::VERSION,
            size,
            slot_size,
            slot_count,
            producer_idx: 0,
            consumer_idx: 0,
            active_producers: 0,
            operations_completed: 0,
            created_at,
            _padding: [0u8; HEADER_PADDING_SIZE],
        };
        assert(h._padding@ =~= Seq::new(HEADER_PADDING_SIZE as nat, |i: int| 0u8));
        h
    }

    /// Creates a header for a region of `size` bytes divided into slots of
    /// `slot_size` bytes, stamped with the current time: the whole seconds
    /// since the Unix epoch of a clock reading.
    pub fn new(size: usize, slot_size: usize) -> (h: RingHeader)
        requires
            size >= HEADER_SIZE,
            slot_size > 0,
        ensures
            h.magic == Self::MAGIC,
            h.version == Self::VERSION,
            h.size == size,
            h.slot_size == slot_size,
            h.slot_count == spec_slot_count(size, slot_size),
            h.producer_idx == 0,
            h.consumer_idx == 0,
            h.active_producers == 0,
            h.operations_completed == 0,
            clock_secs(h.created_at),
            h._padding@ == Seq::new(HEADER_PADDING_SIZE as nat, |i: int| 0u8),
    {
        let now = unix_time_secs();
        assert(clock_secs(now));
        Self::new_created_at(size, slot_size, now)
    }

    /// The NUMA node recorded in the first four padding bytes.
    pub open spec fn spec_numa_node(&self) -> u32 {
        spec_u32_from_le_bytes(self._padding@.subrange(0, 4))
    }

    /// Returns the NUMA node recorded in the header.
    pub fn numa_node(&self) -> (n: u32)
        ensures
            n == self.spec_numa_node(),
    {
        let mut word: Vec<u8> = Vec::new();
        let mut i: usize = 0;
        while i < 4
            invariant
                i <= 4,
                word@ == self._padding@.subrange(0, i as int),
            decreases 4 - i,
        {
            word.push(self._padding[i]);
            i = i + 1;
            assert(word@ =~= self._padding@.subrange(0, i as int));
        }
        u32_from_le_bytes(word.as_slice())
    }

    /// Records `node` as the NUMA node of the ring's memory; the rest of the
    /// header is unchanged.
    pub fn set_numa_node(&mut self, node: u32)
        ensures
            final(self)._padding@ == spec_u32_to_le_bytes(node) + old(self)._padding@.subrange(
                4,
                HEADER_PADDING_SIZE as int,
            ),
            final(self).spec_numa_node() == node,
            final(self).magic == old(self).magic,
            final(self).version == old(self).version,
            final(self).size == old(self).size,
            final(self).slot_size == old(self).slot_size,
            final(self).slot_count == old(self).slot_count,
            final(self).producer_idx == old(self).producer_idx,
            final(self).consumer_idx == old(self).consumer_idx,
            final(self).active_producers == old(self).active_producers,
            final(self).operations_completed == old(self).operations_completed,
            final(self).created_at == old(self).created_at,
    {
        let word = u32_to_le_bytes(node);
        let ghost rest = self._padding@.subrange(4, HEADER_PADDING_SIZE as int);
        let mut i: usize = 0;
        while i < 4
            invariant
                i <= 4,
                word@ == spec_u32_to_le_bytes(node),
                word@.len() == 4,
                self._padding@.len() == HEADER_PADDING_SIZE,
                self._padding@.subrange(0, i as int) == word@.subrange(0, i as int),
                self._padding@.subrange(4, HEADER_PADDING_SIZE as int) == rest,
                self.magic == old(self).magic,
                self.version == old(self).version,
                self.size == old(self).size,
                self.slot_size == old(self).slot_size,
                self.slot_count == old(self).slot_count,
                self.producer_idx == old(self).producer_idx,
                self.consumer_idx == old(self).consumer_idx,
                self.active_producers == old(self).active_producers,
                self.operations_completed == old(self).operations_completed,
                self.created_at == old(self).created_at,
            decreases 4 - i,
        {
            let ghost before = self._padding@;
            self._padding.set(i, word[i]);
            assert(self._padding@ == before.update(i as int, word@[i as int]));
            assert(self._padding@.subrange(0, i + 1) =~= word@.subrange(0, i + 1));
            assert(self._padding@.subrange(4, HEADER_PADDING_SIZE as int) =~= before.subrange(
                4,
                HEADER_PADDING_SIZE as int,
            ));
            i = i + 1;
        }
        assert(word@.subrange(0, 4) =~= word@);
        assert(self._padding@ =~= word@ + rest);
        proof {
            vstd::bytes::lemma_auto_spec_u32_to_from_le_bytes();
            assert(self._padding@.subrange(0, 4) =~= word@);
        }
    }

    /// Validates the header: magic and version match, and the region, the
    /// slots and the slot count are not empty.
    pub fn validate(&self) -> (ok: bool)
        ensures
            ok == self.spec_valid(),
    {
        self.magic == Self::MAGIC && self.version == Self::VERSION && self.size > HEADER_SIZE
            && self.slot_size > 0 && self.slot_count > 0
    }

    /// Takes the next producer index: returns the current one and advances
    /// it by one, wrapping around at the slot count.
    pub fn next_producer_idx(&mut self) -> (idx: usize)
        requires
            old(self).slot_count > 0,
            old(self).producer_idx < usize::MAX,
        ensures
            idx == old(self).producer_idx,
            *final(self) == (RingHeader {
                producer_idx: ((old(self).producer_idx + 1) % (old(self).slot_count as int)) as usize,
                ..*old(self)
            }),
    {
        let current = self.producer_idx;
        self.producer_idx = (current + 1) % self.slot_count;
        current
    }

    /// Takes the next consumer index: returns the current one and advances
    /// it by one, wrapping around at the slot count.
    pub fn next_consumer_idx(&mut self) -> (idx: usize)
        requires
            old(self).slot_count > 0,
            old(self).consumer_idx < usize::MAX,
        ensures
            idx == old(self).consumer_idx,
            *final(self) == (RingHeader {
                consumer_idx: ((old(self).consumer_idx + 1) % (old(self).slot_count as int)) as usize,
                ..*old(self)
            }),
    {
        let current = self.consumer_idx;
        self.consumer_idx = (current + 1) % self.slot_count;
        current
    }

    /// Increments the count of completed operations, wrapping at the top.
    pub fn increment_completed(&mut self)
        ensures
            *final(self) == (RingHeader {
                operations_completed: wrapping_inc(old(self).operations_completed),
                ..*old(self)
            }),
    {
        self.operations_completed = if self.operations_completed == usize::MAX {
            0
        } else {
            self.operations_completed + 1
        };
    }

    /// Registers a producer, wrapping at the top.
    pub fn register_producer(&mut self)
        ensures
            *final(self) == (RingHeader {
                active_producers: wrapping_inc(old(self).active_producers),
                ..*old(self)
            }),
    {
        self.active_producers = if self.active_producers == usize::MAX {
            0
        } else {
            self.active_producers + 1
        };
    }

    /// Unregisters a producer, wrapping at the bottom.
    pub fn unregister_producer(&mut self)
        ensures
            *final(self) == (RingHeader {
                active_producers: wrapping_dec(old(self).active_producers),
                ..*old(self)
            }),
    {
        self.active_producers = if self.active_producers == 0 {
            usize::MAX
        } else {
            self.active_producers - 1
        };
    }

    /// The header bytes as they are laid out in the region.
    pub fn encode(&self) -> (out: Vec<u8>)
        ensures
            out@ == self.spec_encode(),
            out@.len() == HEADER_ENCODED_LEN,
    {
        let mut out = u64_to_le_bytes(self.magic);
        let mut w = u64_to_le_bytes(self.version);
        out.append(&mut w);
        let mut w = u64_to_le_bytes(self.size as u64);
        out.append(&mut w);
        let mut w = u64_to_le_bytes(self.slot_size as u64);
        out.append(&mut w);
        let mut w = u64_to_le_bytes(self.slot_count as u64);
        out.append(&mut w);
        let mut w = u64_to_le_bytes(self.producer_idx as u64);
        out.append(&mut w);
        let mut w = u64_to_le_bytes(self.consumer_idx as u64);
        out.append(&mut w);
        let mut w = u64_to_le_bytes(self.active_producers as u64);
        out.append(&mut w);
        let mut w = u64_to_le_bytes(self.operations_completed as u64);
        out.append(&mut w);
        let mut w = u64_to_le_bytes(self.created_at);
        out.append(&mut w);
        let mut i: usize = 0;
        while i < HEADER_PADDING_SIZE
            invariant
                0 <= i <= HEADER_PADDING_SIZE,
                out@ == self.spec_encode().subrange(0, PADDING_OFFSET + i),
            decreases HEADER_PADDING_SIZE - i,
        {
            out.push(self._padding[i]);
            i = i + 1;
            assert(out@ =~= self.spec_encode().subrange(0, PADDING_OFFSET + i));
        }
        assert(self.spec_encode().subrange(0, HEADER_ENCODED_LEN as int) =~= self.spec_encode());
        out
    }

    /// Reads the header from the first bytes of the region.
    pub fn load(map: &MmapMut) -> (h: RingHeader)
        requires
            HEADER_SIZE <= mapped_bytes(*map).len() <= usize::MAX,
        ensures
            h.magic == u64_at(mapped_bytes(*map), MAGIC_OFFSET as int),
            h.version == u64_at(mapped_bytes(*map), VERSION_OFFSET as int),
            h.size == header_usize(mapped_bytes(*map), SIZE_OFFSET as int),
            h.slot_size == header_usize(mapped_bytes(*map), SLOT_SIZE_OFFSET as int),
            h.slot_count == header_usize(mapped_bytes(*map), SLOT_COUNT_OFFSET as int),
            h.producer_idx == header_usize(mapped_bytes(*map), PRODUCER_IDX_OFFSET as int),
            h.consumer_idx == header_usize(mapped_bytes(*map), CONSUMER_IDX_OFFSET as int),
            h.active_producers == header_usize(mapped_bytes(*map), ACTIVE_PRODUCERS_OFFSET as int),
            h.operations_completed == header_usize(
                mapped_bytes(*map),
                OPERATIONS_COMPLETED_OFFSET as int,
            ),
            h.created_at == u64_at(mapped_bytes(*map), CREATED_AT_OFFSET as int),
            h._padding@ == mapped_bytes(*map).subrange(
                PADDING_OFFSET as int,
                HEADER_ENCODED_LEN as int,
            ),
    {
        let stored = read_bytes(map, PADDING_OFFSET, HEADER_ENCODED_LEN);
        let mut padding = [0u8; HEADER_PADDING_SIZE];
        let mut i: usize = 0;
        while i < HEADER_PADDING_SIZE
            invariant
                0 <= i <= HEADER_PADDING_SIZE,
                stored@.len() == HEADER_PADDING_SIZE,
                forall|k: int| 0 <= k < i ==> padding@[k] == stored@[k],
            decreases HEADER_PADDING_SIZE - i,
        {
            padding[i] = stored[i];
            i = i + 1;
        }
        assert(padding@ =~= stored@);
        RingHeader {
            magic: read_u64(map, MAGIC_OFFSET),
            version: read_u64(map, VERSION_OFFSET),
            size: read_u64(map, SIZE_OFFSET) as usize,
            slot_size: read_u64(map, SLOT_SIZE_OFFSET) as usize,
            slot_count: read_u64(map, SLOT_COUNT_OFFSET) as usize,
            producer_idx: read_u64(map, PRODUCER_IDX_OFFSET) as usize,
            consumer_idx: read_u64(map, CONSUMER_IDX_OFFSET) as usize,
            active_producers: read_u64(map, ACTIVE_PRODUCERS_OFFSET) as usize,
            operations_completed: read_u64(map, OPERATIONS_COMPLETED_OFFSET) as usize,
            created_at: read_u64(map, CREATED_AT_OFFSET),
            _padding: padding,
        }
    }

    /// Writes the header into the first bytes of the region.
    pub fn store(&self, map: &mut MmapMut)
        requires
            HEADER_SIZE <= mapped_bytes(*old(map)).len(),
        ensures
            mapped_bytes(*final(map)) == overwrite(mapped_bytes(*old(map)), 0, self.spec_encode()),
    {
        let bytes = self.encode();
        write_bytes(map, 0, bytes.as_slice());
    }
}

/// The header words decode from their places in the encoded header.
pub proof fn lemma_encode_words(h: RingHeader)
    ensures
        h.spec_encode().len() == HEADER_ENCODED_LEN,
        u64_at(h.spec_encode(), MAGIC_OFFSET as int) == h.magic,
        u64_at(h.spec_encode(), VERSION_OFFSET as int) == h.version,
        u64_at(h.spec_encode(), SIZE_OFFSET as int) == h.size as u64,
        u64_at(h.spec_encode(), SLOT_SIZE_OFFSET as int) == h.slot_size as u64,
        u64_at(h.spec_encode(), SLOT_COUNT_OFFSET as int) == h.slot_count as u64,
        u64_at(h.spec_encode(), PRODUCER_IDX_OFFSET as int) == h.producer_idx as u64,
        u64_at(h.spec_encode(), CONSUMER_IDX_OFFSET as int) == h.consumer_idx as u64,
        u64_at(h.spec_encode(), ACTIVE_PRODUCERS_OFFSET as int) == h.active_producers as u64,
        u64_at(h.spec_encode(), OPERATIONS_COMPLETED_OFFSET as int) == h.operations_completed
            as u64,
        u64_at(h.spec_encode(), CREATED_AT_OFFSET as int) == h.created_at,
        h.spec_encode().subrange(PADDING_OFFSET as int, HEADER_ENCODED_LEN as int) == h._padding@,
{
    vstd::bytes::lemma_auto_spec_u64_to_from_le_bytes();
    let e = h.spec_encode();
    assert(e.subrange(0, 8) =~= spec_u64_to_le_bytes(h.magic));
    assert(e.subrange(8, 16) =~= spec_u64_to_le_bytes(h.version));
    assert(e.subrange(16, 24) =~= spec_u64_to_le_bytes(h.size as u64));
    assert(e.subrange(24, 32) =~= spec_u64_to_le_bytes(h.slot_size as u64));
    assert(e.subrange(32, 40) =~= spec_u64_to_le_bytes(h.slot_count as u64));
    assert(e.subrange(40, 48) =~= spec_u64_to_le_bytes(h.producer_idx as u64));
    assert(e.subrange(48, 56) =~= spec_u64_to_le_bytes(h.consumer_idx as u64));
    assert(e.subrange(56, 64) =~= spec_u64_to_le_bytes(h.active_producers as u64));
    assert(e.subrange(64, 72) =~= spec_u64_to_le_bytes(h.operations_completed as u64));
    assert(e.subrange(72, 80) =~= spec_u64_to_le_bytes(h.created_at));
    assert(e.subrange(80, 144) =~= h._padding@);
}

/// Where an index stands after `k` advances from 0 around `n` slots.
pub open spec fn index_after(n: int, k: nat) -> int
    decreases k,
{
    if k == 0 {
        0
    } else {
        (index_after(n, (k - 1) as nat) + 1) % n
    }
}

/// Taking indices one after another from 0 around `n` slots gives `k % n`
/// on the `k`-th take: the indices go round the slots in order.
pub proof fn lemma_indices_cycle(n: int, k: nat)
    requires
        n > 0,
    ensures
        index_after(n, k) == (k as int) % n,
    decreases k,
{
    if k > 0 {
        lemma_indices_cycle(n, (k - 1) as nat);
        vstd::arithmetic::div_mod::lemma_add_mod_noop(k - 1, 1, n);
        if n > 1 {
            vstd::arithmetic::div_mod::lemma_small_mod(1, n as nat);
        }
        vstd::arithmetic::div_mod::lemma_mod_bound((k - 1) as int, n);
    } else {
        vstd::arithmetic::div_mod::lemma_small_mod(0, n as nat);
    }
}

/// The header after `k` producer index takes, each as `next_producer_idx`
/// makes it.
pub open spec fn after_producer_takes(h: RingHeader, k: nat) -> RingHeader
    decreases k,
{
    if k == 0 {
        h
    } else {
        let p = after_producer_takes(h, (k - 1) as nat);
        RingHeader { producer_idx: ((p.producer_idx + 1) % (p.slot_count as int)) as usize, ..p }
    }
}

/// The header after `k` consumer index takes, each as `next_consumer_idx`
/// makes it.
pub open spec fn after_consumer_takes(h: RingHeader, k: nat) -> RingHeader
    decreases k,
{
    if k == 0 {
        h
    } else {
        let p = after_consumer_takes(h, (k - 1) as nat);
        RingHeader { consumer_idx: ((p.consumer_idx + 1) % (p.slot_count as int)) as usize, ..p }
    }
}

/// Starting from index 0, the producer index takes go round the slots in
/// order: before the take numbered `k` (from 0) the index is `k % n`, so that
/// take returns `k % n`, and every take is one `next_producer_idx` allows.
pub proof fn lemma_producer_takes_cycle(h: RingHeader, k: nat)
    requires
        h.slot_count > 0,
        h.producer_idx == 0,
    ensures
        after_producer_takes(h, k).producer_idx == (k as int) % (h.slot_count as int),
        after_producer_takes(h, k).producer_idx < usize::MAX,
        after_producer_takes(h, k).slot_count == h.slot_count,
        after_producer_takes(h, k).consumer_idx == h.consumer_idx,
    decreases k,
{
    let n = h.slot_count as int;
    lemma_indices_cycle(n, k);
    if k > 0 {
        lemma_producer_takes_cycle(h, (k - 1) as nat);
        lemma_indices_cycle(n, (k - 1) as nat);
        vstd::arithmetic::div_mod::lemma_mod_bound(k as int, n);
    } else {
        vstd::arithmetic::div_mod::lemma_small_mod(0, n as nat);
    }
    vstd::arithmetic::div_mod::lemma_mod_bound(k as int, n);
}

/// Starting from index 0, the consumer index takes go round the slots in
/// order: the take numbered `k` (from 0) returns `k % n`.
pub proof fn lemma_consumer_takes_cycle(h: RingHeader, k: nat)
    requires
        h.slot_count > 0,
        h.consumer_idx == 0,
    ensures
        after_consumer_takes(h, k).consumer_idx == (k as int) % (h.slot_count as int),
        after_consumer_takes(h, k).consumer_idx < usize::MAX,
        after_consumer_takes(h, k).slot_count == h.slot_count,
        after_consumer_takes(h, k).producer_idx == h.producer_idx,
    decreases k,
{
    let n = h.slot_count as int;
    lemma_indices_cycle(n, k);
    if k > 0 {
        lemma_consumer_takes_cycle(h, (k - 1) as nat);
        lemma_indices_cycle(n, (k - 1) as nat);
    } else {
        vstd::arithmetic::div_mod::lemma_small_mod(0, n as nat);
    }
    vstd::arithmetic::div_mod::lemma_mod_bound(k as int, n);
}

/// A stored header loads back as it was: every word and the padding read
/// back from the region are those of the header.
pub proof fn lemma_store_then_load(bytes: Seq<u8>, h: RingHeader)
    requires
        HEADER_SIZE <= bytes.len(),
    ensures
        ({
            let b = overwrite(bytes, 0, h.spec_encode());
            &&& u64_at(b, MAGIC_OFFSET as int) == h.magic
            &&& u64_at(b, VERSION_OFFSET as int) == h.version
            &&& header_usize(b, SIZE_OFFSET as int) == h.size
            &&& header_usize(b, SLOT_SIZE_OFFSET as int) == h.slot_size
            &&& header_usize(b, SLOT_COUNT_OFFSET as int) == h.slot_count
            &&& header_usize(b, PRODUCER_IDX_OFFSET as int) == h.producer_idx
            &&& header_usize(b, CONSUMER_IDX_OFFSET as int) == h.consumer_idx
            &&& header_usize(b, ACTIVE_PRODUCERS_OFFSET as int) == h.active_producers
            &&& header_usize(b, OPERATIONS_COMPLETED_OFFSET as int) == h.operations_completed
            &&& u64_at(b, CREATED_AT_OFFSET as int) == h.created_at
            &&& b.subrange(PADDING_OFFSET as int, HEADER_ENCODED_LEN as int) == h._padding@
        }),
{
    lemma_encode_words(h);
    let e = h.spec_encode();
    let b = overwrite(bytes, 0, e);
    assert(b.subrange(0, HEADER_ENCODED_LEN as int) == e);
    assert forall|at: int| 0 <= at <= HEADER_ENCODED_LEN - 8 implies #[trigger] u64_at(b, at)
        == u64_at(e, at) by {
        assert(b.subrange(at, at + 8) =~= e.subrange(at, at + 8));
    }
    assert(b.subrange(PADDING_OFFSET as int, HEADER_ENCODED_LEN as int) =~= e.subrange(
        PADDING_OFFSET as int,
        HEADER_ENCODED_LEN as int,
    ));
    assert(u64_at(b, SIZE_OFFSET as int) == u64_at(e, SIZE_OFFSET as int));
    assert(u64_at(b, SLOT_SIZE_OFFSET as int) == u64_at(e, SLOT_SIZE_OFFSET as int));
    assert(u64_at(b, SLOT_COUNT_OFFSET as int) == u64_at(e, SLOT_COUNT_OFFSET as int));
    assert(u64_at(b, PRODUCER_IDX_OFFSET as int) == u64_at(e, PRODUCER_IDX_OFFSET as int));
    assert(u64_at(b, CONSUMER_IDX_OFFSET as int) == u64_at(e, CONSUMER_IDX_OFFSET as int));
    assert(u64_at(b, ACTIVE_PRODUCERS_OFFSET as int) == u64_at(
        e,
        ACTIVE_PRODUCERS_OFFSET as int,
    ));
    assert(u64_at(b, OPERATIONS_COMPLETED_OFFSET as int) == u64_at(
        e,
        OPERATIONS_COMPLETED_OFFSET as int,
    ));
    assert(u64_at(b, MAGIC_OFFSET as int) == u64_at(e, MAGIC_OFFSET as int));
    assert(u64_at(b, VERSION_OFFSET as int) == u64_at(e, VERSION_OFFSET as int));
    assert(u64_at(b, CREATED_AT_OFFSET as int) == u64_at(e, CREATED_AT_OFFSET as int));
}

/// Registering a producer and then unregistering it leaves the count as it
/// was, and so does the reverse.
pub proof fn lemma_register_unregister(x: usize)
    ensures
        wrapping_dec(wrapping_inc(x)) == x,
        wrapping_inc(wrapping_dec(x)) == x,
{
}

} // verus!
