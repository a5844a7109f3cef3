//! The ring buffer behaves as a first-in, first-out queue of operations.
//!
//! The statements here are over the effects that the buffer's operations
//! are specified to have on the region: a read takes the oldest waiting
//! operation, a write appends one, and a freshly created ring holds none.

use crate::ring::buffer::{
    active_producers_of, coherent, completed_of, consumer_of, entry_at, layout_ok, lemma_reset_slots_header,
    lemma_reset_slots_len, lemma_slot_count_fits, lemma_slot_fits, lemma_slot_geometry,
    lemma_slots_apart, pending, pending_len, producer_of,
    reset_slots, ring_index, slot_at, slot_count_of, spec_claim, spec_fill, spec_read,
};
use crate::ring::header::{
    lemma_encode_words, spec_slot_count, wrapping_dec, wrapping_inc, RingHeader,
    ACTIVE_PRODUCERS_OFFSET, CONSUMER_IDX_OFFSET,
    HEADER_SIZE, OPERATIONS_COMPLETED_OFFSET, PRODUCER_IDX_OFFSET, SLOT_COUNT_OFFSET,
};
use crate::ring::region::{
    group_region_lemmas, lemma_overwrite_twice, overwrite, u32_at, u64_at, with_u32, with_u64,
};
use vstd::bytes::{spec_u32_to_le_bytes, spec_u64_from_le_bytes, spec_u64_to_le_bytes};
use crate::ring::slot::{
    lemma_kind_code_round_trip, stored_id, OperationKind, Slot, SlotStatus, ID_OFFSET,
    OPERATION_OFFSET, SIZE_OFFSET, SLOT_METADATA_SIZE,
};
use vstd::arithmetic::div_mod::{lemma_mod_self_0, lemma_small_mod};
use vstd::prelude::*;

verus! {

broadcast use group_region_lemmas;

/// Advancing an index by one, wrapping around at `n`, moves it one place
/// along the ring.
pub proof fn lemma_next_index(i: int, n: int)
    requires
        0 <= i < n,
    ensures
        (i + 1) % n == ring_index(i, 1, n),
{
    if i + 1 < n {
        lemma_small_mod((i + 1) as nat, n as nat);
    } else {
        lemma_mod_self_0(n);
    }
}

/// Two different slots of a well laid-out ring lie apart.
proof fn lemma_slots_disjoint(bytes: Seq<u8>, slot_size: usize, i: int, j: int)
    requires
        layout_ok(bytes, slot_size),
        0 <= i < slot_count_of(bytes),
        0 <= j < slot_count_of(bytes),
        i != j,
    ensures
        slot_at(slot_size, i).metadata + slot_size <= slot_at(slot_size, j).metadata
            || slot_at(slot_size, j).metadata + slot_size <= slot_at(slot_size, i).metadata,
        slot_at(slot_size, i).fits(bytes.len()),
        slot_at(slot_size, j).fits(bytes.len()),
        slot_at(slot_size, i).metadata + slot_size <= bytes.len(),
        slot_at(slot_size, j).metadata + slot_size <= bytes.len(),
        slot_at(slot_size, i).metadata >= HEADER_SIZE,
        slot_at(slot_size, j).metadata >= HEADER_SIZE,
{
    lemma_slot_fits(bytes, slot_size, i);
    lemma_slot_fits(bytes, slot_size, j);
    if i < j {
        lemma_slots_apart(i, j, slot_size as int);
    } else {
        lemma_slots_apart(j, i, slot_size as int);
    }
}

/// A write that stays clear of a slot leaves what the slot records alone.
pub proof fn lemma_slot_untouched(bytes: Seq<u8>, offset: int, data: Seq<u8>, t: Slot, len: int)
    requires
        t.fits(bytes.len()),
        0 <= offset,
        offset + data.len() <= bytes.len(),
        offset + data.len() <= t.metadata || t.data + t.data_size <= offset,
        0 <= len <= t.data_size,
    ensures
        t.spec_status(overwrite(bytes, offset, data)) == t.spec_status(bytes),
        t.spec_operation(overwrite(bytes, offset, data)) == t.spec_operation(bytes),
        t.spec_size(overwrite(bytes, offset, data)) == t.spec_size(bytes),
        t.spec_payload(overwrite(bytes, offset, data), len) == t.spec_payload(bytes, len),
        overwrite(bytes, offset, data).len() == bytes.len(),
{
    let after = overwrite(bytes, offset, data);
    assert(u32_at(after, t.metadata as int) == u32_at(bytes, t.metadata as int));
    assert(u32_at(after, t.metadata + OPERATION_OFFSET) == u32_at(
        bytes,
        t.metadata + OPERATION_OFFSET,
    ));
    assert(u64_at(after, t.metadata + SIZE_OFFSET) == u64_at(bytes, t.metadata + SIZE_OFFSET));
    assert(after.subrange(t.data as int, t.data + len) == bytes.subrange(
        t.data as int,
        t.data + len,
    ));
}

/// A read from a ring whose slots agree with its indices, and which holds
/// at least one operation, returns the oldest operation, removes it from the
/// queue, counts it as completed, and leaves the slots agreeing with the
/// indices.
pub proof fn lemma_read_takes_oldest(bytes: Seq<u8>, slot_size: usize)
    requires
        layout_ok(bytes, slot_size),
        coherent(bytes, slot_size),
        pending_len(bytes) > 0,
    ensures
        spec_read(bytes, slot_size).0 == Some(pending(bytes, slot_size)[0]),
        pending(spec_read(bytes, slot_size).1, slot_size) == pending(bytes, slot_size).drop_first(),
        coherent(spec_read(bytes, slot_size).1, slot_size),
        layout_ok(spec_read(bytes, slot_size).1, slot_size),
        completed_of(spec_read(bytes, slot_size).1) == wrapping_inc(completed_of(bytes)),
{
    let p = producer_of(bytes) as int;
    let c = consumer_of(bytes) as int;
    let n = slot_count_of(bytes) as int;
    let len = pending_len(bytes);
    lemma_next_index(c, n);
    let c1 = ring_index(c, 1, n);
    let s = slot_at(slot_size, c);
    lemma_slot_fits(bytes, slot_size, c);
    assert(ring_index(c, 0, n) == c);
    assert(slot_at(slot_size, ring_index(c, 0, n)) == s);
    let m = s.metadata as int;
    let advanced = with_u64(bytes, CONSUMER_IDX_OFFSET as int, ((c + 1) % n) as u64);
    assert(s.spec_status(advanced) == SlotStatus::Ready);
    assert(s.spec_size(advanced) <= s.data_size);
    let completed = with_u32(advanced, m, SlotStatus::Complete.spec_code());
    let after = spec_read(bytes, slot_size).1;
    assert(after == with_u64(
        completed,
        OPERATIONS_COMPLETED_OFFSET as int,
        wrapping_inc(completed_of(advanced)) as u64,
    ));
    assert(entry_at(bytes, slot_size, c) == pending(bytes, slot_size)[0]);
    assert(pending_len(after) == len - 1);
    assert forall|k: int| 0 <= k < len - 1 implies #[trigger] pending(after, slot_size)[k]
        == pending(bytes, slot_size)[k + 1] by {
        let j = ring_index(c, k + 1, n);
        assert(ring_index(c1, k, n) == j);
        lemma_slots_disjoint(bytes, slot_size, c, j);
        let t = slot_at(slot_size, j);
        assert(slot_at(slot_size, ring_index(c, k + 1, n)) == t);
        assert(t.spec_size(bytes) <= t.data_size);
        let sz = t.spec_size(bytes) as int;
        lemma_read_leaves_slot(bytes, slot_size, c, t, sz);
        assert(entry_at(after, slot_size, j) == entry_at(bytes, slot_size, j));
    }
    assert(pending(after, slot_size) =~= pending(bytes, slot_size).drop_first());
    assert forall|k: int| 0 <= k < len - 1 implies {
        let t = slot_at(slot_size, #[trigger] ring_index(c1, k, n));
        &&& t.spec_status(after) == SlotStatus::Ready
        &&& t.spec_size(after) <= t.data_size
    } by {
        let j = ring_index(c, k + 1, n);
        assert(ring_index(c1, k, n) == j);
        lemma_slots_disjoint(bytes, slot_size, c, j);
        let t = slot_at(slot_size, j);
        assert(slot_at(slot_size, ring_index(c, k + 1, n)) == t);
        lemma_read_leaves_slot(bytes, slot_size, c, t, 0);
    }
    assert forall|k: int| len - 1 <= k < n implies {
        let st = slot_at(slot_size, #[trigger] ring_index(c1, k, n)).spec_status(after);
        st == SlotStatus::Empty || st == SlotStatus::Complete
    } by {
        if k == n - 1 {
            assert(ring_index(c1, k, n) == c);
        } else {
            let j = ring_index(c, k + 1, n);
            assert(ring_index(c1, k, n) == j);
            lemma_slots_disjoint(bytes, slot_size, c, j);
            let t = slot_at(slot_size, j);
            assert(slot_at(slot_size, ring_index(c, k + 1, n)) == t);
            lemma_read_leaves_slot(bytes, slot_size, c, t, 0);
        }
    }
}

/// The writes of a successful read, to the consumer index, the completed
/// count and the status of slot `c`, leave every other slot alone.
proof fn lemma_read_leaves_slot(bytes: Seq<u8>, slot_size: usize, c: int, t: Slot, len: int)
    requires
        layout_ok(bytes, slot_size),
        0 <= c < slot_count_of(bytes),
        t.fits(bytes.len()),
        t.metadata >= HEADER_SIZE,
        slot_at(slot_size, c).metadata + slot_size <= t.metadata || t.data + t.data_size
            <= slot_at(slot_size, c).metadata,
        0 <= len <= t.data_size,
    ensures
        ({
            let n = slot_count_of(bytes) as int;
            let advanced = with_u64(
                bytes,
                CONSUMER_IDX_OFFSET as int,
                ((consumer_of(bytes) + 1) % n) as u64,
            );
            let completed = with_u32(
                advanced,
                slot_at(slot_size, c).metadata as int,
                SlotStatus::Complete.spec_code(),
            );
            let after = with_u64(
                completed,
                OPERATIONS_COMPLETED_OFFSET as int,
                wrapping_inc(completed_of(advanced)) as u64,
            );
            &&& t.spec_status(after) == t.spec_status(bytes)
            &&& t.spec_operation(after) == t.spec_operation(bytes)
            &&& t.spec_size(after) == t.spec_size(bytes)
            &&& t.spec_payload(after, len) == t.spec_payload(bytes, len)
        }),
{
    let n = slot_count_of(bytes) as int;
    let v1 = ((consumer_of(bytes) + 1) % n) as u64;
    let d1 = spec_u64_to_le_bytes(v1);
    let advanced = overwrite(bytes, CONSUMER_IDX_OFFSET as int, d1);
    lemma_slot_fits(bytes, slot_size, c);
    lemma_slot_untouched(bytes, CONSUMER_IDX_OFFSET as int, d1, t, len);
    let m = slot_at(slot_size, c).metadata as int;
    let d2 = spec_u32_to_le_bytes(SlotStatus::Complete.spec_code());
    let completed = overwrite(advanced, m, d2);
    lemma_slot_untouched(advanced, m, d2, t, len);
    let d3 = spec_u64_to_le_bytes(wrapping_inc(completed_of(advanced)) as u64);
    lemma_slot_untouched(completed, OPERATIONS_COMPLETED_OFFSET as int, d3, t, len);
}

/// A read from a ring that holds no operation returns nothing and changes
/// nothing.
pub proof fn lemma_read_empty(bytes: Seq<u8>, slot_size: usize)
    requires
        layout_ok(bytes, slot_size),
        pending_len(bytes) == 0,
    ensures
        spec_read(bytes, slot_size) == (None::<(OperationKind, Seq<u8>)>, bytes),
{
}


/// Two regions that agree on a slot's bytes agree on what the slot records.
proof fn lemma_same_slot_fields(a: Seq<u8>, b: Seq<u8>, t: Slot, len: int)
    requires
        t.fits(a.len()),
        a.len() == b.len(),
        0 <= len <= t.data_size,
        a.subrange(t.metadata as int, t.data + t.data_size) == b.subrange(
            t.metadata as int,
            t.data + t.data_size,
        ),
    ensures
        t.spec_status(a) == t.spec_status(b),
        t.spec_operation(a) == t.spec_operation(b),
        t.spec_size(a) == t.spec_size(b),
        t.spec_payload(a, len) == t.spec_payload(b, len),
{
    let lo = t.metadata as int;
    let hi = t.data + t.data_size;
    assert forall|i: int| lo <= i < hi implies a[i] == b[i] by {
        assert(a.subrange(lo, hi)[i - lo] == b.subrange(lo, hi)[i - lo]);
    }
    assert(a.subrange(lo, lo + 4) =~= b.subrange(lo, lo + 4));
    assert(a.subrange(lo + OPERATION_OFFSET, lo + OPERATION_OFFSET + 4) =~= b.subrange(
        lo + OPERATION_OFFSET,
        lo + OPERATION_OFFSET + 4,
    ));
    assert(a.subrange(lo + SIZE_OFFSET, lo + SIZE_OFFSET + 8) =~= b.subrange(
        lo + SIZE_OFFSET,
        lo + SIZE_OFFSET + 8,
    ));
    assert(a.subrange(t.data as int, t.data + len) =~= b.subrange(t.data as int, t.data + len));
}

/// Claiming a slot of a ring whose slots agree with its indices, and which
/// is not full (fewer than `slot_count - 1` operations waiting, see
/// `spec_claim`), takes the slot at the producer index; filling that slot with an
/// operation whose payload fits appends the operation to the queue and
/// leaves the slots agreeing with the indices.
pub proof fn lemma_write_appends(
    bytes: Seq<u8>,
    slot_size: usize,
    kind: OperationKind,
    id: Seq<u8>,
    timestamp: u64,
    data: Seq<u8>,
)
    requires
        layout_ok(bytes, slot_size),
        coherent(bytes, slot_size),
        pending_len(bytes) + 1 < slot_count_of(bytes),
        data.len() + SLOT_METADATA_SIZE <= slot_size,
        id.len() == 16,
    ensures
        spec_claim(bytes, slot_size).0 == Some(producer_of(bytes)),
        layout_ok(spec_claim(bytes, slot_size).1, slot_size),
        ({
            let filled = spec_fill(
                spec_claim(bytes, slot_size).1,
                slot_size,
                producer_of(bytes) as int,
                kind,
                id,
                timestamp,
                data,
            );
            &&& pending(filled, slot_size) == pending(bytes, slot_size).push((kind, data))
            &&& coherent(filled, slot_size)
            &&& layout_ok(filled, slot_size)
        }),
{
    let p = producer_of(bytes) as int;
    let c = consumer_of(bytes) as int;
    let n = slot_count_of(bytes) as int;
    let len = pending_len(bytes);
    lemma_next_index(p, n);
    let p1 = ring_index(p, 1, n);
    assert(ring_index(c, len, n) == p);
    let s = slot_at(slot_size, p);
    lemma_slot_fits(bytes, slot_size, p);
    assert(slot_at(slot_size, ring_index(c, len, n)) == s);
    let m = s.metadata as int;
    let advanced = with_u64(bytes, PRODUCER_IDX_OFFSET as int, ((p + 1) % n) as u64);
    assert(s.spec_status(advanced) == s.spec_status(bytes));
    let claimed = s.spec_reset(advanced);
    assert(spec_claim(bytes, slot_size) == (Some(p as usize), claimed));
    let labelled = overwrite(
        with_u32(claimed, m + OPERATION_OFFSET, kind.spec_code()),
        m + ID_OFFSET,
        stored_id(id),
    );
    let filled = s.spec_store(labelled, data, timestamp);
    assert(spec_fill(claimed, slot_size, p, kind, id, timestamp, data) == filled);
    assert(filled.len() == bytes.len());
    // The slot written records the new operation.
    assert(s.spec_status(filled) == SlotStatus::Ready);
    lemma_kind_code_round_trip(kind);
    assert(s.spec_operation(filled) == kind);
    assert(s.spec_size(filled) == data.len());
    assert(s.spec_payload(filled, data.len() as int) == data);
    // The header words are only moved at the producer index.
    assert(producer_of(filled) == p1);
    assert(consumer_of(filled) == c);
    assert(slot_count_of(filled) == n);
    assert(pending_len(filled) == len + 1);
    assert forall|j: int| 0 <= j < n && j != p implies #[trigger] filled.subrange(
        slot_at(slot_size, j).metadata as int,
        slot_at(slot_size, j).metadata + slot_size,
    ) == bytes.subrange(
        slot_at(slot_size, j).metadata as int,
        slot_at(slot_size, j).metadata + slot_size,
    ) by {
        lemma_slots_disjoint(bytes, slot_size, p, j);
        let lo = slot_at(slot_size, j).metadata as int;
        assert(filled.subrange(lo, lo + slot_size) =~= bytes.subrange(lo, lo + slot_size));
    }
    assert forall|k: int| 0 <= k < len implies #[trigger] pending(filled, slot_size)[k]
        == pending(bytes, slot_size)[k] by {
        let j = ring_index(c, k, n);
        let t = slot_at(slot_size, j);
        assert(slot_at(slot_size, ring_index(c, k, n)) == t);
        lemma_slots_disjoint(bytes, slot_size, p, j);
        assert(filled.subrange(t.metadata as int, t.metadata + slot_size) == bytes.subrange(
            t.metadata as int,
            t.metadata + slot_size,
        ));
        lemma_same_slot_fields(filled, bytes, t, t.spec_size(bytes) as int);
    }
    assert(pending(filled, slot_size)[len] == (kind, data));
    assert(pending(filled, slot_size) =~= pending(bytes, slot_size).push((kind, data)));
    assert forall|k: int| 0 <= k < len + 1 implies {
        let t = slot_at(slot_size, #[trigger] ring_index(c, k, n));
        &&& t.spec_status(filled) == SlotStatus::Ready
        &&& t.spec_size(filled) <= t.data_size
    } by {
        if k < len {
            let j = ring_index(c, k, n);
            let t = slot_at(slot_size, j);
            lemma_slots_disjoint(bytes, slot_size, p, j);
            assert(filled.subrange(t.metadata as int, t.metadata + slot_size) == bytes.subrange(
                t.metadata as int,
                t.metadata + slot_size,
            ));
            lemma_same_slot_fields(filled, bytes, t, 0);
        }
    }
    assert forall|k: int| len + 1 <= k < n implies {
        let st = slot_at(slot_size, #[trigger] ring_index(c, k, n)).spec_status(filled);
        st == SlotStatus::Empty || st == SlotStatus::Complete
    } by {
        let j = ring_index(c, k, n);
        let t = slot_at(slot_size, j);
        assert(slot_at(slot_size, ring_index(c, k, n)) == t);
        lemma_slots_disjoint(bytes, slot_size, p, j);
        assert(filled.subrange(t.metadata as int, t.metadata + slot_size) == bytes.subrange(
            t.metadata as int,
            t.metadata + slot_size,
        ));
        lemma_same_slot_fields(filled, bytes, t, 0);
    }
}


/// Resetting slots `0..k` leaves each of them with status code zero.
proof fn lemma_reset_slots_status(bytes: Seq<u8>, slot_size: usize, k: nat, i: int)
    requires
        0 <= i < k,
        HEADER_SIZE + k * slot_size <= bytes.len() <= usize::MAX,
        SLOT_METADATA_SIZE <= slot_size,
    ensures
        u32_at(reset_slots(bytes, slot_size, k), slot_at(slot_size, i).metadata as int) == 0,
    decreases k,
{
    let prev = reset_slots(bytes, slot_size, (k - 1) as nat);
    lemma_reset_slots_len(bytes, slot_size, (k - 1) as nat);
    lemma_slot_geometry(k - 1, k as int, slot_size as int);
    lemma_slot_geometry(i, k as int, slot_size as int);
    assert(HEADER_SIZE + (k - 1) * slot_size <= bytes.len()) by (nonlinear_arith)
        requires
            HEADER_SIZE + k * slot_size <= bytes.len(),
            k >= 1,
    ;
    let s = slot_at(slot_size, k - 1);
    if i == k - 1 {
        assert(u32_at(s.spec_reset(prev), s.metadata as int) == 0);
    } else {
        lemma_slots_apart(i, k - 1, slot_size as int);
        lemma_reset_slots_status(bytes, slot_size, (k - 1) as nat, i);
        let mi = slot_at(slot_size, i).metadata as int;
        assert(u32_at(s.spec_reset(prev), mi) == u32_at(prev, mi));
    }
}

/// A freshly created ring holds no operation, and its slots agree with its
/// indices.
pub proof fn lemma_created_ring_is_empty(initial: Seq<u8>, h: RingHeader)
    requires
        initial.len() == h.size,
        h.size >= HEADER_SIZE,
        h.slot_size > 0,
        h.slot_count == spec_slot_count(h.size, h.slot_size),
        h.slot_count == 0 || h.slot_size >= SLOT_METADATA_SIZE,
        h.producer_idx == 0,
        h.consumer_idx == 0,
    ensures
        ({
            let b = reset_slots(
                overwrite(initial, 0, h.spec_encode()),
                h.slot_size,
                h.slot_count as nat,
            );
            &&& layout_ok(b, h.slot_size)
            &&& pending(b, h.slot_size).len() == 0
            &&& coherent(b, h.slot_size)
        }),
{
    let ss = h.slot_size;
    let n = h.slot_count;
    let b0 = overwrite(initial, 0, h.spec_encode());
    lemma_encode_words(h);
    lemma_slot_count_fits(h.size, ss);
    let b = reset_slots(b0, ss, n as nat);
    lemma_reset_slots_len(b0, ss, n as nat);
    lemma_reset_slots_header(b0, ss, n as nat, SLOT_COUNT_OFFSET as int);
    lemma_reset_slots_header(b0, ss, n as nat, PRODUCER_IDX_OFFSET as int);
    lemma_reset_slots_header(b0, ss, n as nat, CONSUMER_IDX_OFFSET as int);
    assert(slot_count_of(b) == n);
    assert(producer_of(b) == 0);
    assert(consumer_of(b) == 0);
    assert forall|k: int| 0 <= k < n implies {
        let st = slot_at(ss, #[trigger] ring_index(0, k, n as int)).spec_status(b);
        st == SlotStatus::Empty || st == SlotStatus::Complete
    } by {
        assert(ring_index(0, k, n as int) == k);
        lemma_reset_slots_status(b0, ss, n as nat, k);
    }
}

/// An operation written into a ring that holds none, and that has at least
/// two slots, is what the next read returns.
pub proof fn lemma_write_then_read(
    bytes: Seq<u8>,
    slot_size: usize,
    kind: OperationKind,
    id: Seq<u8>,
    timestamp: u64,
    data: Seq<u8>,
)
    requires
        layout_ok(bytes, slot_size),
        coherent(bytes, slot_size),
        pending_len(bytes) == 0,
        slot_count_of(bytes) >= 2,
        data.len() + SLOT_METADATA_SIZE <= slot_size,
        id.len() == 16,
    ensures
        ({
            let claimed = spec_claim(bytes, slot_size);
            let filled = spec_fill(
                claimed.1,
                slot_size,
                producer_of(bytes) as int,
                kind,
                id,
                timestamp,
                data,
            );
            &&& claimed.0 == Some(producer_of(bytes))
            &&& spec_read(filled, slot_size).0 == Some((kind, data))
            &&& pending(spec_read(filled, slot_size).1, slot_size).len() == 0
        }),
{
    lemma_write_appends(bytes, slot_size, kind, id, timestamp, data);
    let claimed = spec_claim(bytes, slot_size);
    let filled = spec_fill(
        claimed.1,
        slot_size,
        producer_of(bytes) as int,
        kind,
        id,
        timestamp,
        data,
    );
    assert(pending(bytes, slot_size).len() == 0);
    assert(pending(filled, slot_size) =~= seq![(kind, data)]);
    lemma_read_takes_oldest(filled, slot_size);
}

/// A producer that registers and then unregisters leaves the region as it
/// found it (when the recorded count is one a `usize` holds).
pub proof fn lemma_producer_round_trip(bytes: Seq<u8>)
    requires
        ACTIVE_PRODUCERS_OFFSET + 8 <= bytes.len(),
        u64_at(bytes, ACTIVE_PRODUCERS_OFFSET as int) <= usize::MAX,
    ensures
        ({
            let a = ACTIVE_PRODUCERS_OFFSET as int;
            let registered = with_u64(bytes, a, wrapping_inc(active_producers_of(bytes)) as u64);
            with_u64(registered, a, wrapping_dec(active_producers_of(registered)) as u64) == bytes
        }),
{
    let a = ACTIVE_PRODUCERS_OFFSET as int;
    let x = active_producers_of(bytes);
    let registered = with_u64(bytes, a, wrapping_inc(x) as u64);
    assert(u64_at(registered, a) == wrapping_inc(x) as u64);
    assert(active_producers_of(registered) == wrapping_inc(x));
    assert(wrapping_dec(wrapping_inc(x)) == x);
    vstd::bytes::lemma_auto_spec_u64_to_from_le_bytes();
    lemma_overwrite_twice(
        bytes,
        a,
        spec_u64_to_le_bytes(wrapping_inc(x) as u64),
        spec_u64_to_le_bytes(x as u64),
    );
    let word = bytes.subrange(a, a + 8);
    assert(x as u64 == spec_u64_from_le_bytes(word));
    assert(spec_u64_to_le_bytes(spec_u64_from_le_bytes(word)) == word);
    assert(overwrite(bytes, a, word) =~= bytes);
}

/// A full ring, one with a single free slot left, claims nothing and is
/// left as it was: the writer waits instead of overrunning the operations
/// not yet read.
pub proof fn lemma_full_ring_waits(bytes: Seq<u8>, slot_size: usize)
    requires
        layout_ok(bytes, slot_size),
        pending_len(bytes) + 1 >= slot_count_of(bytes),
    ensures
        spec_claim(bytes, slot_size) == (None::<usize>, bytes),
{
}

} // verus!
