//! Sector-granular access to the pool image, block materialisation and
//! the uberblock scan.
//!
//! The helper owns the raw image bytes; every read is a byte-exact
//! subrange at sector granularity.  Materialising a block pointer reads
//! the allocated sectors of its first DVA and expands them according to
//! the pointer's compression tag.

use vstd::prelude::*;
use crate::ZfsError;
use crate::codec::le64;
use crate::lzjb;
use crate::ondisk::{
    BlockPtr, DVAddr, Uberblock, bp_matches, dva_asize, dva_gang, dva_sector, spec_compression,
    spec_lsize, ub_matches, ub_valid,
};
use vstd::slice::{slice_subrange, slice_to_vec};

verus! {

/// A sector-range read succeeds when it lies inside the image.
pub open spec fn spec_read_ok(img: Seq<u8>, start: u64, count: u64) -> bool {
    start * 512 + count * 512 <= img.len()
}

/// The bytes of `count` sectors starting at sector `start`.
pub open spec fn spec_read(img: Seq<u8>, start: u64, count: u64) -> Seq<u8> {
    img.subrange(start * 512, start * 512 + count * 512)
}

/// A sequence of `n` zero bytes.
pub open spec fn zero_seq(n: int) -> Seq<u8> {
    Seq::new(n as nat, |i: int| 0u8)
}

/// Materialising a block pointer, given the pointer's 128-byte image
/// `p`: read the allocated sectors of the first DVA, then expand them
/// according to the compression tag (2 passes through, 1 and 3 are LZJB
/// into a zeroed buffer of `lsize` sectors, anything else is refused).
/// Gang blocks are refused before any read.
pub open spec fn spec_read_block(img: Seq<u8>, p: Seq<u8>) -> Result<Seq<u8>, ZfsError>
    recommends
        p.len() == 128,
{
    let vdev = le64(p, 0);
    let off = le64(p, 8);
    let f = le64(p, 48);
    if dva_gang(off) {
        Err(ZfsError::Unsupported)
    } else if !spec_read_ok(img, dva_sector(off), dva_asize(vdev)) {
        Err(ZfsError::IoError)
    } else {
        let data = spec_read(img, dva_sector(off), dva_asize(vdev));
        let comp = spec_compression(f);
        if comp == 2 {
            Ok(data)
        } else if comp == 1 || comp == 3 {
            match lzjb::decode(data, zero_seq(spec_lsize(f) * 512), 0, 0u8, 8) {
                Some(o) => Ok(o),
                None => Err(ZfsError::CorruptCompression),
            }
        } else {
            Err(ZfsError::Unsupported)
        }
    }
}

/// A fresh vector of `n` zero bytes.
fn zero_vec(n: usize) -> (r: Vec<u8>)
    ensures
        r@ == zero_seq(n as int),
{
    let mut v: Vec<u8> = Vec::new();
    let mut i: usize = 0;
    while i < n
        invariant
            i <= n,
            v@ =~= zero_seq(i as int),
        decreases n - i,
    {
        v.push(0u8);
        proof {
            assert(v@ =~= zero_seq(i as int + 1));
        }
        i = i + 1;
    }
    v
}

/// Owns the pool image and serves sector-granular reads from it.
pub struct ZfsHelper {
    disk: Vec<u8>,
}

impl ZfsHelper {
    /// The raw image bytes.
    pub closed spec fn img(self) -> Seq<u8> {
        self.disk@
    }

    pub fn new(disk: Vec<u8>) -> (r: ZfsHelper)
        ensures
            r.img() == disk@,
    {
        ZfsHelper { disk }
    }

    /// Reads `count` sectors starting at sector `start`; fails with
    /// `IoError` exactly when the range leaves the image.
    pub fn read(&self, start: u64, count: u64) -> (r: Result<Vec<u8>, ZfsError>)
        ensures
            r is Ok <==> spec_read_ok(self.img(), start, count),
            r is Ok ==> r.unwrap()@ == spec_read(self.img(), start, count),
            r is Err ==> r == Err::<Vec<u8>, ZfsError>(ZfsError::IoError),
    {
        let len: usize = self.disk.len();
        let s128: u128 = (start as u128) * 512;
        let e128: u128 = s128 + (count as u128) * 512;
        if e128 > len as u128 {
            return Err(ZfsError::IoError);
        }
        let s: usize = s128 as usize;
        let e: usize = e128 as usize;
        Ok(slice_to_vec(slice_subrange(self.disk.as_slice(), s, e)))
    }

    /// Reads the sectors a DVA points at.
    pub fn read_dva(&self, dva: &DVAddr) -> (r: Result<Vec<u8>, ZfsError>)
        ensures
            r is Ok <==> spec_read_ok(self.img(), dva_sector(dva.offset), dva_asize(dva.vdev)),
            r is Ok ==> r.unwrap()@ == spec_read(
                self.img(),
                dva_sector(dva.offset),
                dva_asize(dva.vdev),
            ),
            r is Err ==> r == Err::<Vec<u8>, ZfsError>(ZfsError::IoError),
    {
        self.read(dva.sector(), dva.asize())
    }

    /// Materialises a block pointer into its decompressed logical bytes.
    pub fn read_block(&self, bp: &BlockPtr) -> (r: Result<Vec<u8>, ZfsError>)
        ensures
            forall|p: Seq<u8>|
                bp_matches(*bp, p) ==> match #[trigger] spec_read_block(self.img(), p) {
                    Ok(o) => r is Ok && r.unwrap()@ == o,
                    Err(e) => r == Err::<Vec<u8>, ZfsError>(e),
                },
    {
        if bp.dvas[0].gang() {
            return Err(ZfsError::Unsupported);
        }
        let data = match self.read_dva(&bp.dvas[0]) {
            Ok(d) => d,
            Err(e) => {
                return Err(e);
            },
        };
        let comp = bp.compression();
        if comp == 2 {
            Ok(data)
        } else if comp == 1 || comp == 3 {
            let lsize = bp.lsize();
            let mut out = zero_vec((lsize as usize) * 512);
            match lzjb::decompress(data.as_slice(), &mut out) {
                Ok(_) => Ok(out),
                Err(e) => Err(e),
            }
        } else {
            Err(ZfsError::Unsupported)
        }
    }
}

/// Materialising an LZJB block (tag 1 or 3) whose allocated sectors
/// hold the compressor's stream for `src`, followed by any padding up
/// to the allocated size, yields `src` exactly.
pub proof fn lemma_read_block_round_trip(img: Seq<u8>, p: Seq<u8>, src: Seq<u8>, extra: Seq<u8>)
    requires
        p.len() == 128,
        !dva_gang(le64(p, 8)),
        spec_read_ok(img, dva_sector(le64(p, 8)), dva_asize(le64(p, 0))),
        spec_compression(le64(p, 48)) == 1 || spec_compression(le64(p, 48)) == 3,
        spec_read(img, dva_sector(le64(p, 8)), dva_asize(le64(p, 0))) == lzjb::lit_enc(src)
            + extra,
        spec_lsize(le64(p, 48)) * 512 == src.len(),
    ensures
        spec_read_block(img, p) == Ok::<Seq<u8>, ZfsError>(src),
{
    lzjb::lemma_compress_round_trip(src, extra, zero_seq(src.len() as int));
    assert(zero_seq(spec_lsize(le64(p, 48)) * 512) =~= zero_seq(src.len() as int));
}

/// The byte image of uberblock ring slot `i`: two sectors starting at
/// sector `256 + 2 i` of the label region.
pub open spec fn slot_bytes(img: Seq<u8>, i: int) -> Seq<u8> {
    img.subrange((256 + 2 * i) * 512, (256 + 2 * i) * 512 + 1024)
}

/// Slot `i` holds a decodable uberblock: the slot lies inside the image
/// and its magic reads canonically in one of the two byte orders.
pub open spec fn slot_ok(img: Seq<u8>, i: int) -> bool {
    &&& (256 + 2 * i) * 512 + 1024 <= img.len()
    &&& ub_valid(slot_bytes(img, i))
}

/// The transaction group recorded in slot `i`.
pub open spec fn slot_txg(img: Seq<u8>, i: int) -> u64 {
    le64(slot_bytes(img, i), 16)
}

/// The winning slot among the first `n`: the valid slot with the highest
/// transaction group, later slots winning ties; `-1` when none is valid.
pub open spec fn best_slot_upto(img: Seq<u8>, n: int) -> int
    decreases n,
{
    if n <= 0 {
        -1
    } else {
        let prev = best_slot_upto(img, n - 1);
        if slot_ok(img, n - 1) && (prev == -1 || slot_txg(img, n - 1) >= slot_txg(img, prev)) {
            n - 1
        } else {
            prev
        }
    }
}

impl ZfsHelper {
    /// Scans the 128-slot uberblock ring and returns the valid uberblock
    /// with the highest transaction group; among equals the highest slot
    /// index wins.  `None` exactly when no slot decodes.
    pub fn uber(&self) -> (r: Option<Uberblock>)
        ensures
            r is Some ==> exists|i: int|
                {
                    &&& 0 <= i < 128
                    &&& #[trigger] slot_ok(self.img(), i)
                    &&& ub_matches(r.unwrap(), slot_bytes(self.img(), i))
                    &&& forall|j: int|
                        0 <= j < 128 && #[trigger] slot_ok(self.img(), j) ==> slot_txg(
                            self.img(),
                            j,
                        ) <= r.unwrap().txg
                    &&& forall|j: int|
                        i < j < 128 && #[trigger] slot_ok(self.img(), j) ==> slot_txg(
                            self.img(),
                            j,
                        ) < r.unwrap().txg
                },
            r is None <==> forall|i: int| 0 <= i < 128 ==> !#[trigger] slot_ok(self.img(), i),
            r is Some <==> best_slot_upto(self.img(), 128) >= 0,
            r is Some ==> ub_matches(
                r.unwrap(),
                slot_bytes(self.img(), best_slot_upto(self.img(), 128)),
            ),
    {
        let mut best: Option<Uberblock> = None;
        let ghost mut best_i: int = 0;
        let mut i: u64 = 0;
        while i < 128
            invariant
                i <= 128,
                best is Some ==> {
                    &&& 0 <= best_i < i
                    &&& slot_ok(self.img(), best_i)
                    &&& ub_matches(best.unwrap(), slot_bytes(self.img(), best_i))
                    &&& forall|j: int|
                        0 <= j < i && #[trigger] slot_ok(self.img(), j) ==> slot_txg(
                            self.img(),
                            j,
                        ) <= best.unwrap().txg
                    &&& forall|j: int|
                        best_i < j < i && #[trigger] slot_ok(self.img(), j) ==> slot_txg(
                            self.img(),
                            j,
                        ) < best.unwrap().txg
                },
                best is None ==> forall|j: int| 0 <= j < i ==> !#[trigger] slot_ok(self.img(), j),
                best is None ==> best_slot_upto(self.img(), i as int) == -1,
                best is Some ==> best_i == best_slot_upto(self.img(), i as int),
            decreases 128 - i,
        {
            match self.read(256 + 2 * i, 2) {
                Ok(buf) => {
                    match Uberblock::from_bytes(buf.as_slice()) {
                        Some(u) => {
                            proof {
                                assert(buf@ == slot_bytes(self.img(), i as int));
                                assert(slot_ok(self.img(), i as int));
                                assert(u.txg == slot_txg(self.img(), i as int));
                            }
                            let replace = match best {
                                Some(b) => u.txg >= b.txg,
                                None => true,
                            };
                            if replace {
                                best = Some(u);
                                proof {
                                    best_i = i as int;
                                }
                            }
                        },
                        None => {
                            proof {
                                assert(!ub_valid(slot_bytes(self.img(), i as int)));
                            }
                        },
                    }
                },
                Err(_) => {
                    proof {
                        assert(!spec_read_ok(self.img(), (256 + 2 * i) as u64, 2));
                        assert(!slot_ok(self.img(), i as int));
                    }
                },
            }
            i = i + 1;
        }
        best
    }
}

} // verus!
