//! Micro-ZAP blocks: small name-to-value maps stored as one block.
//!
//! A micro-ZAP block is a 64-byte header followed by 64-byte chunks of
//! `{ value: u64, cd: u32, pad: u16, name: [u8; 50] }` with NUL-terminated
//! names.  Lookup scans chunks in order until the name matches or a chunk
//! with an empty name ends the directory.

use vstd::prelude::*;
use crate::codec::{le32, le64, read_u32, read_u64, lemma_le32_sub, lemma_le64_sub};
use vstd::slice::{slice_index_get, slice_subrange, slice_to_vec};

verus! {

/// The type word that opens a micro-ZAP block.
pub open spec fn spec_mzap_block_type(b: Seq<u8>) -> u64 {
    le64(b, 0)
}

/// A block is a micro-ZAP when its type word is `(1 << 63) + 3`.
pub open spec fn mzap_is_micro(b: Seq<u8>) -> bool {
    spec_mzap_block_type(b) == 0x8000_0000_0000_0003u64
}

/// `s` up to, and not including, its first NUL byte.
pub open spec fn nul_trunc(s: Seq<u8>) -> Seq<u8>
    decreases s.len(),
{
    if s.len() == 0 {
        s
    } else if s[0] == 0 {
        Seq::empty()
    } else {
        seq![s[0]] + nul_trunc(s.drop_first())
    }
}

/// If the first `k` bytes of `s` are non-NUL and byte `k` (if present) is
/// NUL, the truncation is exactly the first `k` bytes.
pub proof fn lemma_nul_trunc_take(s: Seq<u8>, k: int)
    requires
        0 <= k <= s.len(),
        forall|j: int| 0 <= j < k ==> s[j] != 0,
        k < s.len() ==> s[k] == 0,
    ensures
        nul_trunc(s) == s.take(k),
    decreases s.len(),
{
    if s.len() == 0 {
        assert(s.take(k) =~= s);
    } else if k == 0 {
        assert(s.take(0) =~= Seq::<u8>::empty());
    } else {
        lemma_nul_trunc_take(s.drop_first(), k - 1);
        assert(seq![s[0]] + s.drop_first().take(k - 1) =~= s.take(k));
    }
}

/// One 64-byte micro-ZAP chunk; `name` keeps the raw 50 name bytes.
pub struct MZapChunk {
    pub value: u64,
    pub cd: u32,
    pub name: Vec<u8>,
}

/// A decoded chunk reads exactly the fields of its 64-byte image.
pub open spec fn chunk_matches(c: MZapChunk, b: Seq<u8>) -> bool {
    &&& b.len() == 64
    &&& c.value == le64(b, 0)
    &&& c.cd == le32(b, 8)
    &&& c.name@ == b.subrange(14, 64)
}

/// The chunk's name: the raw bytes up to the first NUL.
pub open spec fn chunk_name(c: MZapChunk) -> Seq<u8> {
    nul_trunc(c.name@)
}

impl MZapChunk {
    /// The NUL-truncated name.
    pub fn name(&self) -> (r: Vec<u8>)
        ensures
            r@ == chunk_name(*self),
    {
        let n: usize = self.name.len();
        let mut k: usize = 0;
        while k < n && *vstd::slice::slice_index_get(self.name.as_slice(), k) != 0
            invariant
                k <= n,
                n == self.name@.len(),
                forall|j: int| 0 <= j < k ==> self.name@[j] != 0,
            decreases n - k,
        {
            k = k + 1;
        }
        proof {
            lemma_nul_trunc_take(self.name@, k as int);
        }
        slice_to_vec(slice_subrange(self.name.as_slice(), 0, k))
    }
}

/// Whether the directory ends at `i`: past the last chunk, or at a chunk
/// with an empty name.
pub open spec fn spec_lookup(chunks: Seq<MZapChunk>, key: Seq<u8>, i: int) -> Option<u64>
    decreases chunks.len() - i,
{
    if i < 0 || i >= chunks.len() {
        None
    } else if chunk_name(chunks[i]).len() == 0 {
        None
    } else if chunk_name(chunks[i]) == key {
        Some(chunks[i].value)
    } else {
        spec_lookup(chunks, key, i + 1)
    }
}

/// The names of the directory's chunks, in chunk order, up to the first
/// chunk with an empty name.
pub open spec fn spec_names(chunks: Seq<MZapChunk>, i: int) -> Seq<Seq<u8>>
    decreases chunks.len() - i,
{
    if i < 0 || i >= chunks.len() {
        Seq::empty()
    } else if chunk_name(chunks[i]).len() == 0 {
        Seq::empty()
    } else {
        seq![chunk_name(chunks[i])] + spec_names(chunks, i + 1)
    }
}

/// A parsed micro-ZAP block: every full chunk after the 64-byte header.
pub struct MZapWrapper {
    pub chunks: Vec<MZapChunk>,
}

/// A decoded micro-ZAP reads exactly the chunks of its block image.
pub open spec fn mzap_matches(w: MZapWrapper, b: Seq<u8>) -> bool {
    &&& b.len() >= 64
    &&& w.chunks@.len() == (b.len() - 64) / 64
    &&& forall|i: int|
        0 <= i < w.chunks@.len() ==> chunk_matches(
            #[trigger] w.chunks@[i],
            b.subrange(64 + 64 * i, 128 + 64 * i),
        )
}

impl MZapWrapper {
    /// Parses a micro-ZAP block; `None` when it is shorter than the
    /// 64-byte header.
    pub fn from_bytes(b: &[u8]) -> (r: Option<MZapWrapper>)
        ensures
            r is Some <==> b@.len() >= 64,
            r is Some ==> mzap_matches(r.unwrap(), b@),
    {
        let n: usize = b.len();
        if n < 64 {
            return None;
        }
        let count: usize = (n - 64) / 64;
        let mut chunks: Vec<MZapChunk> = Vec::new();
        let mut i: usize = 0;
        while i < count
            invariant
                i <= count,
                n == b@.len(),
                n >= 64,
                count == (n - 64) / 64,
                chunks@.len() == i,
                forall|j: int|
                    0 <= j < i ==> chunk_matches(
                        #[trigger] chunks@[j],
                        b@.subrange(64 + 64 * j, 128 + 64 * j),
                    ),
            decreases count - i,
        {
            let off: usize = 64 + 64 * i;
            let c = MZapChunk {
                value: read_u64(b, off),
                cd: read_u32(b, off + 8),
                name: slice_to_vec(slice_subrange(b, off + 14, off + 64)),
            };
            proof {
                let o = off as int;
                lemma_le64_sub(b@, o, 64, 0);
                lemma_le32_sub(b@, o, 64, 8);
                assert(b@.subrange(o + 14, o + 64) =~= b@.subrange(o, o + 64).subrange(14, 64));
            }
            chunks.push(c);
            i = i + 1;
        }
        Some(MZapWrapper { chunks })
    }

    /// Looks `key` up among the chunks, stopping at the first chunk with
    /// an empty name.
    pub fn lookup(&self, key: &[u8]) -> (r: Option<u64>)
        ensures
            r == spec_lookup(self.chunks@, key@, 0),
    {
        let n: usize = self.chunks.len();
        let mut i: usize = 0;
        while i < n
            invariant
                i <= n,
                n == self.chunks@.len(),
                spec_lookup(self.chunks@, key@, 0) == spec_lookup(self.chunks@, key@, i as int),
            decreases n - i,
        {
            let name = self.chunks[i].name();
            if name.len() == 0 {
                return None;
            }
            if bytes_eq(name.as_slice(), key) {
                return Some(self.chunks[i].value);
            }
            i = i + 1;
        }
        None
    }

    /// The directory listing: every chunk name up to the first empty one.
    pub fn names(&self) -> (r: Vec<Vec<u8>>)
        ensures
            r@.len() == spec_names(self.chunks@, 0).len(),
            forall|i: int|
                0 <= i < r@.len() ==> #[trigger] r@[i]@ == spec_names(self.chunks@, 0)[i],
    {
        let n: usize = self.chunks.len();
        let mut out: Vec<Vec<u8>> = Vec::new();
        let mut i: usize = 0;
        while i < n
            invariant
                i <= n,
                n == self.chunks@.len(),
                spec_names(self.chunks@, 0) == out@.map_values(|v: Vec<u8>| v@) + spec_names(
                    self.chunks@,
                    i as int,
                ),
                forall|j: int| 0 <= j < i ==> chunk_name(#[trigger] self.chunks@[j]).len() > 0,
                out@.len() == i,
                forall|j: int| 0 <= j < i ==> #[trigger] out@[j]@ == chunk_name(self.chunks@[j]),
            decreases n - i,
        {
            let name = self.chunks[i].name();
            if name.len() == 0 {
                proof {
                    assert(spec_names(self.chunks@, i as int) =~= Seq::<Seq<u8>>::empty());
                    assert(out@.map_values(|v: Vec<u8>| v@) + Seq::<Seq<u8>>::empty()
                        =~= out@.map_values(|v: Vec<u8>| v@));
                }
                return out;
            }
            out.push(name);
            proof {
                assert(out@.map_values(|v: Vec<u8>| v@) =~= out@.drop_last().map_values(
                    |v: Vec<u8>| v@,
                ) + seq![out@.last()@]);
                assert(out@.drop_last() =~= out@.subrange(0, out@.len() - 1));
            }
            i = i + 1;
        }
        proof {
            assert(spec_names(self.chunks@, n as int) =~= Seq::<Seq<u8>>::empty());
            assert(out@.map_values(|v: Vec<u8>| v@) + Seq::<Seq<u8>>::empty() =~= out@.map_values(
                |v: Vec<u8>| v@,
            ));
        }
        out
    }
}

/// The number of full chunks in a micro-ZAP block image.
pub open spec fn mzap_count(b: Seq<u8>) -> int {
    (b.len() - 64) / 64
}

/// The NUL-truncated name of chunk `i` of a block image.
pub open spec fn mzap_chunk_name(b: Seq<u8>, i: int) -> Seq<u8> {
    nul_trunc(b.subrange(64 + 64 * i + 14, 64 + 64 * i + 64))
}

/// The value word of chunk `i` of a block image.
pub open spec fn mzap_chunk_value(b: Seq<u8>, i: int) -> u64 {
    le64(b, 64 + 64 * i)
}

/// Lookup over the raw block image, chunk by chunk from `i`.
pub open spec fn spec_mzap_lookup(b: Seq<u8>, key: Seq<u8>, i: int) -> Option<u64>
    decreases mzap_count(b) - i,
{
    if i < 0 || i >= mzap_count(b) {
        None
    } else if mzap_chunk_name(b, i).len() == 0 {
        None
    } else if mzap_chunk_name(b, i) == key {
        Some(mzap_chunk_value(b, i))
    } else {
        spec_mzap_lookup(b, key, i + 1)
    }
}

/// The listing of the raw block image, chunk by chunk from `i`.
pub open spec fn spec_mzap_names(b: Seq<u8>, i: int) -> Seq<Seq<u8>>
    decreases mzap_count(b) - i,
{
    if i < 0 || i >= mzap_count(b) {
        Seq::empty()
    } else if mzap_chunk_name(b, i).len() == 0 {
        Seq::empty()
    } else {
        seq![mzap_chunk_name(b, i)] + spec_mzap_names(b, i + 1)
    }
}

/// A parsed wrapper looks up exactly what the raw block image holds.
pub proof fn lemma_lookup_bridge(w: MZapWrapper, b: Seq<u8>, key: Seq<u8>, i: int)
    requires
        mzap_matches(w, b),
        0 <= i,
    ensures
        spec_lookup(w.chunks@, key, i) == spec_mzap_lookup(b, key, i),
    decreases w.chunks@.len() - i,
{
    if i < w.chunks@.len() {
        lemma_chunk_fields(w, b, i);
        if mzap_chunk_name(b, i).len() != 0 && mzap_chunk_name(b, i) != key {
            lemma_lookup_bridge(w, b, key, i + 1);
        }
    }
}

/// A parsed wrapper lists exactly what the raw block image holds.
pub proof fn lemma_names_bridge(w: MZapWrapper, b: Seq<u8>, i: int)
    requires
        mzap_matches(w, b),
        0 <= i,
    ensures
        spec_names(w.chunks@, i) == spec_mzap_names(b, i),
    decreases w.chunks@.len() - i,
{
    if i < w.chunks@.len() {
        lemma_chunk_fields(w, b, i);
        if mzap_chunk_name(b, i).len() != 0 {
            lemma_names_bridge(w, b, i + 1);
        }
    }
}

/// Chunk `i` of a parsed wrapper carries the name and value words of
/// chunk `i` of the block image.
pub proof fn lemma_chunk_fields(w: MZapWrapper, b: Seq<u8>, i: int)
    requires
        mzap_matches(w, b),
        0 <= i < w.chunks@.len(),
    ensures
        chunk_name(w.chunks@[i]) == mzap_chunk_name(b, i),
        w.chunks@[i].value == mzap_chunk_value(b, i),
{
    let sub = b.subrange(64 + 64 * i, 128 + 64 * i);
    assert(sub.subrange(14, 64) =~= b.subrange(64 + 64 * i + 14, 64 + 64 * i + 64));
    lemma_le64_sub(b, 64 + 64 * i, 64, 0);
}

/// Byte-for-byte slice equality.
pub fn bytes_eq(a: &[u8], b: &[u8]) -> (r: bool)
    ensures
        r <==> a@ == b@,
{
    let na: usize = a.len();
    let nb: usize = b.len();
    if na != nb {
        proof {
            assert(a@.len() != b@.len());
        }
        return false;
    }
    let mut i: usize = 0;
    while i < na
        invariant
            i <= na,
            na == a@.len(),
            na == b@.len(),
            forall|j: int| 0 <= j < i ==> a@[j] == b@[j],
        decreases na - i,
    {
        if *slice_index_get(a, i) != *slice_index_get(b, i) {
            return false;
        }
        i = i + 1;
    }
    proof {
        assert(a@ =~= b@);
    }
    true
}

} // verus!
