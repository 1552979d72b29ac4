//! Little-endian field decoding for packed on-disk records.
//!
//! Every multi-byte integer in a ZFS on-disk structure is read from an exact
//! byte span at a fixed offset and assembled little-endian.  The spec
//! functions here give the mathematical reading of such a span; the exec
//! functions return exactly that value.

use vstd::prelude::*;
use vstd::bytes::{
    spec_u16_from_le_bytes, spec_u32_from_le_bytes, spec_u64_from_le_bytes, u16_from_le_bytes,
    u32_from_le_bytes, u64_from_le_bytes,
};
use vstd::slice::slice_subrange;

verus! {

/// The little-endian `u16` held at byte offset `off` of `s`.
pub open spec fn le16(s: Seq<u8>, off: int) -> u16 {
    spec_u16_from_le_bytes(s.subrange(off, off + 2))
}

/// The little-endian `u32` held at byte offset `off` of `s`.
pub open spec fn le32(s: Seq<u8>, off: int) -> u32 {
    spec_u32_from_le_bytes(s.subrange(off, off + 4))
}

/// The little-endian `u64` held at byte offset `off` of `s`.
pub open spec fn le64(s: Seq<u8>, off: int) -> u64 {
    spec_u64_from_le_bytes(s.subrange(off, off + 8))
}

/// Reads the little-endian `u16` at `off`.
pub fn read_u16(b: &[u8], off: usize) -> (r: u16)
    requires
        off + 2 <= b@.len(),
    ensures
        r == le16(b@, off as int),
{
    let n = b.len();
    u16_from_le_bytes(slice_subrange(b, off, off + 2))
}

/// Reads the little-endian `u32` at `off`.
pub fn read_u32(b: &[u8], off: usize) -> (r: u32)
    requires
        off + 4 <= b@.len(),
    ensures
        r == le32(b@, off as int),
{
    let n = b.len();
    u32_from_le_bytes(slice_subrange(b, off, off + 4))
}

/// Reads the little-endian `u64` at `off`.
pub fn read_u64(b: &[u8], off: usize) -> (r: u64)
    requires
        off + 8 <= b@.len(),
    ensures
        r == le64(b@, off as int),
{
    let n = b.len();
    u64_from_le_bytes(slice_subrange(b, off, off + 8))
}

/// Reading a field of a record equals reading it from the enclosing bytes.
pub proof fn lemma_le16_sub(b: Seq<u8>, off: int, len: int, k: int)
    requires
        0 <= off,
        0 <= k,
        k + 2 <= len,
        off + len <= b.len(),
    ensures
        le16(b.subrange(off, off + len), k) == le16(b, off + k),
{
    assert(b.subrange(off, off + len).subrange(k, k + 2) =~= b.subrange(off + k, off + k + 2));
}

/// Reading a field of a record equals reading it from the enclosing bytes.
pub proof fn lemma_le32_sub(b: Seq<u8>, off: int, len: int, k: int)
    requires
        0 <= off,
        0 <= k,
        k + 4 <= len,
        off + len <= b.len(),
    ensures
        le32(b.subrange(off, off + len), k) == le32(b, off + k),
{
    assert(b.subrange(off, off + len).subrange(k, k + 4) =~= b.subrange(off + k, off + k + 4));
}

/// Reading a field of a record equals reading it from the enclosing bytes.
pub proof fn lemma_le64_sub(b: Seq<u8>, off: int, len: int, k: int)
    requires
        0 <= off,
        0 <= k,
        k + 8 <= len,
        off + len <= b.len(),
    ensures
        le64(b.subrange(off, off + len), k) == le64(b, off + k),
{
    assert(b.subrange(off, off + len).subrange(k, k + 8) =~= b.subrange(off + k, off + k + 8));
}

} // verus!
