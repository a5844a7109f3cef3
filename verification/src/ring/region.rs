//! Byte-level access to the memory-mapped region that holds a ring buffer.
//!
//! The region is modelled as the sequence of bytes it holds. Every access
//! goes through a copy out of, or a copy into, a range of the mapping, and
//! the fixed-width fields of the ring layout are little-endian integers.
//!
//! What is proved of a region rests on its bytes changing only through the
//! mapping that holds them. memmap2 documents that a file modified while it
//! is mapped, whether by this process or another, gives undefined behaviour.
//! So the contracts here hold while no other mapping writes the file: a ring
//! shared by several processes, or mapped twice in one process, is outside
//! what they cover. In particular, producers in different processes are not
//! kept from taking the same slot.

use memmap2::MmapMut;
use vstd::bytes::{
    lemma_auto_spec_u32_to_from_le_bytes, lemma_auto_spec_u64_to_from_le_bytes,
    spec_u32_from_le_bytes, spec_u32_to_le_bytes, spec_u64_from_le_bytes, spec_u64_to_le_bytes,
    u32_from_le_bytes, u32_to_le_bytes, u64_from_le_bytes, u64_to_le_bytes,
};
use vstd::prelude::*;

verus! {

#[verifier::external_type_specification]
#[verifier::external_body]
pub struct ExMmapMut(MmapMut);

/// The bytes that a writable memory map holds, as long as only this mapping
/// writes them.
pub uninterp spec fn mapped_bytes(map: MmapMut) -> Seq<u8>;

/// `bytes` after `data` is written over the range that starts at `offset`.
pub open spec fn overwrite(bytes: Seq<u8>, offset: int, data: Seq<u8>) -> Seq<u8> {
    Seq::new(
        bytes.len(),
        |i: int|
            if offset <= i < offset + data.len() {
                data[i - offset]
            } else {
                bytes[i]
            },
    )
}

/// `bytes` after the little-endian form of `value` is written at `offset`.
pub open spec fn with_u32(bytes: Seq<u8>, offset: int, value: u32) -> Seq<u8> {
    overwrite(bytes, offset, spec_u32_to_le_bytes(value))
}

/// `bytes` after the little-endian form of `value` is written at `offset`.
pub open spec fn with_u64(bytes: Seq<u8>, offset: int, value: u64) -> Seq<u8> {
    overwrite(bytes, offset, spec_u64_to_le_bytes(value))
}

/// The little-endian 32-bit word stored at `offset`.
pub open spec fn u32_at(bytes: Seq<u8>, offset: int) -> u32 {
    spec_u32_from_le_bytes(bytes.subrange(offset, offset + 4))
}

/// The little-endian 64-bit word stored at `offset`.
pub open spec fn u64_at(bytes: Seq<u8>, offset: int) -> u64 {
    spec_u64_from_le_bytes(bytes.subrange(offset, offset + 8))
}

/// The ranges `[a, a + la)` and `[b, b + lb)` do not overlap.
pub open spec fn disjoint(a: int, la: int, b: int, lb: int) -> bool {
    a + la <= b || b + lb <= a
}

/// Returns the length of the mapping, `MmapMut`'s slice length.
#[verifier::external_body]
fn map_len(map: &MmapMut) -> (n: usize)
    ensures
        n == mapped_bytes(*map).len(),
{
    map.len()
}

/// Copies the bytes `[start, end)` out of the mapping, which dereferences to
/// the slice of the bytes it holds.
#[verifier::external_body]
fn map_copy_out(map: &MmapMut, start: usize, end: usize) -> (out: Vec<u8>)
    requires
        start <= end <= mapped_bytes(*map).len(),
    ensures
        out@ == mapped_bytes(*map).subrange(start as int, end as int),
{
    map[start..end].to_vec()
}

/// Copies `data` into the mapping at `start`, through the mutable slice that
/// the mapping dereferences to; no other byte changes.
#[verifier::external_body]
fn map_copy_in(map: &mut MmapMut, start: usize, data: &[u8])
    requires
        start + data@.len() <= mapped_bytes(*old(map)).len(),
    ensures
        mapped_bytes(*final(map)) == overwrite(mapped_bytes(*old(map)), start as int, data@),
{
    map[start..][..data.len()].copy_from_slice(data)
}

/// Length of the mapped region.
pub fn region_len(map: &MmapMut) -> (n: usize)
    ensures
        n == mapped_bytes(*map).len(),
{
    map_len(map)
}

/// Reads the bytes `[start, end)` of the region.
pub fn read_bytes(map: &MmapMut, start: usize, end: usize) -> (out: Vec<u8>)
    requires
        start <= end <= mapped_bytes(*map).len(),
    ensures
        out@ == mapped_bytes(*map).subrange(start as int, end as int),
{
    map_copy_out(map, start, end)
}

/// Writes `data` into the region at `start`.
pub fn write_bytes(map: &mut MmapMut, start: usize, data: &[u8])
    requires
        start + data@.len() <= mapped_bytes(*old(map)).len(),
    ensures
        mapped_bytes(*final(map)) == overwrite(mapped_bytes(*old(map)), start as int, data@),
{
    map_copy_in(map, start, data)
}

/// Reads the little-endian 32-bit word at `offset`.
pub fn read_u32(map: &MmapMut, offset: usize) -> (v: u32)
    requires
        offset + 4 <= mapped_bytes(*map).len() <= usize::MAX,
    ensures
        v == u32_at(mapped_bytes(*map), offset as int),
{
    let b = map_copy_out(map, offset, offset + 4);
    u32_from_le_bytes(b.as_slice())
}

/// Reads the little-endian 64-bit word at `offset`.
pub fn read_u64(map: &MmapMut, offset: usize) -> (v: u64)
    requires
        offset + 8 <= mapped_bytes(*map).len() <= usize::MAX,
    ensures
        v == u64_at(mapped_bytes(*map), offset as int),
{
    let b = map_copy_out(map, offset, offset + 8);
    u64_from_le_bytes(b.as_slice())
}

/// Writes `value` as a little-endian 32-bit word at `offset`.
pub fn write_u32(map: &mut MmapMut, offset: usize, value: u32)
    requires
        offset + 4 <= mapped_bytes(*old(map)).len(),
    ensures
        mapped_bytes(*final(map)) == with_u32(mapped_bytes(*old(map)), offset as int, value),
{
    let b = u32_to_le_bytes(value);
    map_copy_in(map, offset, b.as_slice());
}

/// Writes `value` as a little-endian 64-bit word at `offset`.
pub fn write_u64(map: &mut MmapMut, offset: usize, value: u64)
    requires
        offset + 8 <= mapped_bytes(*old(map)).len(),
    ensures
        mapped_bytes(*final(map)) == with_u64(mapped_bytes(*old(map)), offset as int, value),
{
    let b = u64_to_le_bytes(value);
    map_copy_in(map, offset, b.as_slice());
}

/// A write keeps the length of the region.
pub broadcast proof fn lemma_overwrite_len(bytes: Seq<u8>, offset: int, data: Seq<u8>)
    ensures
        #[trigger] overwrite(bytes, offset, data).len() == bytes.len(),
{
}

/// Reading back the range just written gives the data written.
pub broadcast proof fn lemma_overwrite_same(bytes: Seq<u8>, offset: int, data: Seq<u8>)
    requires
        0 <= offset,
        offset + data.len() <= bytes.len(),
    ensures
        #[trigger] overwrite(bytes, offset, data).subrange(offset, offset + data.len()) == data,
{
    assert(overwrite(bytes, offset, data).subrange(offset, offset + data.len()) =~= data);
}

/// A write leaves every range it does not overlap as it was.
pub broadcast proof fn lemma_overwrite_other(
    bytes: Seq<u8>,
    offset: int,
    data: Seq<u8>,
    lo: int,
    hi: int,
)
    requires
        0 <= lo <= hi <= bytes.len(),
        hi <= offset || offset + data.len() <= lo,
    ensures
        #[trigger] overwrite(bytes, offset, data).subrange(lo, hi) == bytes.subrange(lo, hi),
{
    assert(overwrite(bytes, offset, data).subrange(lo, hi) =~= bytes.subrange(lo, hi));
}

/// A 32-bit word reads back as written.
pub broadcast proof fn lemma_u32_same(bytes: Seq<u8>, offset: int, value: u32)
    requires
        0 <= offset,
        offset + 4 <= bytes.len(),
    ensures
        #[trigger] u32_at(with_u32(bytes, offset, value), offset) == value,
        with_u32(bytes, offset, value).len() == bytes.len(),
{
    lemma_auto_spec_u32_to_from_le_bytes();
    lemma_overwrite_same(bytes, offset, spec_u32_to_le_bytes(value));
}

/// A 64-bit word reads back as written.
pub broadcast proof fn lemma_u64_same(bytes: Seq<u8>, offset: int, value: u64)
    requires
        0 <= offset,
        offset + 8 <= bytes.len(),
    ensures
        #[trigger] u64_at(with_u64(bytes, offset, value), offset) == value,
        with_u64(bytes, offset, value).len() == bytes.len(),
{
    lemma_auto_spec_u64_to_from_le_bytes();
    lemma_overwrite_same(bytes, offset, spec_u64_to_le_bytes(value));
}

/// A 64-bit word inside a written range reads from the data written.
pub broadcast proof fn lemma_u64_inside(bytes: Seq<u8>, offset: int, data: Seq<u8>, at: int)
    requires
        0 <= offset <= at,
        at + 8 <= offset + data.len(),
        offset + data.len() <= bytes.len(),
    ensures
        #[trigger] u64_at(overwrite(bytes, offset, data), at) == u64_at(data, at - offset),
{
    assert(overwrite(bytes, offset, data).subrange(at, at + 8) =~= data.subrange(
        at - offset,
        at - offset + 8,
    ));
}

/// A 32-bit word is unchanged by a write that does not overlap it.
pub broadcast proof fn lemma_u32_other(bytes: Seq<u8>, offset: int, data: Seq<u8>, at: int)
    requires
        0 <= at,
        at + 4 <= bytes.len(),
        disjoint(offset, data.len() as int, at, 4),
    ensures
        #[trigger] u32_at(overwrite(bytes, offset, data), at) == u32_at(bytes, at),
{
    lemma_overwrite_other(bytes, offset, data, at, at + 4);
}

/// A 64-bit word is unchanged by a write that does not overlap it.
pub broadcast proof fn lemma_u64_other(bytes: Seq<u8>, offset: int, data: Seq<u8>, at: int)
    requires
        0 <= at,
        at + 8 <= bytes.len(),
        disjoint(offset, data.len() as int, at, 8),
    ensures
        #[trigger] u64_at(overwrite(bytes, offset, data), at) == u64_at(bytes, at),
{
    lemma_overwrite_other(bytes, offset, data, at, at + 8);
}

/// The encoding of a 32-bit word is four bytes long.
pub broadcast proof fn lemma_u32_bytes_len(v: u32)
    ensures
        #[trigger] spec_u32_to_le_bytes(v).len() == 4,
{
    lemma_auto_spec_u32_to_from_le_bytes();
}

/// The encoding of a 64-bit word is eight bytes long.
pub broadcast proof fn lemma_u64_bytes_len(v: u64)
    ensures
        #[trigger] spec_u64_to_le_bytes(v).len() == 8,
{
    lemma_auto_spec_u64_to_from_le_bytes();
}

/// A later write over the same range hides an earlier one.
pub proof fn lemma_overwrite_twice(bytes: Seq<u8>, offset: int, first: Seq<u8>, second: Seq<u8>)
    requires
        first.len() == second.len(),
    ensures
        overwrite(overwrite(bytes, offset, first), offset, second) == overwrite(
            bytes,
            offset,
            second,
        ),
{
    assert(overwrite(overwrite(bytes, offset, first), offset, second) =~= overwrite(
        bytes,
        offset,
        second,
    ));
}

/// Writes to ranges that do not overlap can be taken in either order.
pub proof fn lemma_overwrite_commute(
    bytes: Seq<u8>,
    a: int,
    da: Seq<u8>,
    b: int,
    db: Seq<u8>,
)
    requires
        disjoint(a, da.len() as int, b, db.len() as int),
    ensures
        overwrite(overwrite(bytes, a, da), b, db) == overwrite(overwrite(bytes, b, db), a, da),
{
    assert(overwrite(overwrite(bytes, a, da), b, db) =~= overwrite(overwrite(bytes, b, db), a, da));
}

pub broadcast group group_region_lemmas {
    lemma_overwrite_len,
    lemma_overwrite_same,
    lemma_overwrite_other,
    lemma_u32_same,
    lemma_u64_same,
    lemma_u32_other,
    lemma_u64_other,
    lemma_u64_inside,
    lemma_u32_bytes_len,
    lemma_u64_bytes_len,
}

} // verus!
