//! The packed on-disk records at the top of the pool: device virtual
//! addresses, block pointers, uberblocks and the vdev label.
//!
//! Every record is a little-endian packed byte layout with fixed offsets.
//! A `*_matches` predicate states, field by field, what it means for a
//! decoded value to be the reading of a byte image; the parsers establish
//! it and the `*_image` functions invert it.

use vstd::prelude::*;
use crate::codec::{le64, read_u64, lemma_le64_sub};
use vstd::bytes::{spec_u64_to_le_bytes, u64_to_le_bytes, lemma_auto_spec_u64_to_from_le_bytes};

verus! {

/// A device virtual address: a vdev word and an offset word, 16 bytes.
#[derive(Clone, Copy, Debug, PartialEq, Eq, Structural)]
pub struct DVAddr {
    pub vdev: u64,
    pub offset: u64,
}

/// The low 63 bits of the offset word: a byte offset in sectors from the
/// end of the label/boot region.
pub open spec fn dva_offset(off_word: u64) -> u64 {
    off_word & 0x7FFF_FFFF_FFFF_FFFF
}

/// The gang flag is the high bit of the offset word.
pub open spec fn dva_gang(off_word: u64) -> bool {
    off_word & 0x8000_0000_0000_0000 != 0
}

/// Physical sector: the offset biased by the two 256 KiB labels and the
/// 3.5 MiB boot block, 0x2000 sectors in all.
pub open spec fn dva_sector(off_word: u64) -> u64 {
    (dva_offset(off_word) + 0x2000) as u64
}

/// Allocated size in sectors: the low 24 bits of the vdev word, plus one.
pub open spec fn dva_asize(vdev_word: u64) -> u64 {
    ((vdev_word & 0xFFFFFF) + 1) as u64
}

impl DVAddr {
    /// Sector address: the offset plus two vdev labels and one boot block
    /// (4 MiB, or 0x2000 sectors).  Every valid DVA therefore points at or
    /// beyond sector 0x2000.
    pub fn sector(&self) -> (r: u64)
        ensures
            r == dva_sector(self.offset),
            r >= 0x2000,
    {
        proof {
            let w = self.offset;
            assert(w & 0x7FFF_FFFF_FFFF_FFFF <= 0x7FFF_FFFF_FFFF_FFFF) by (bit_vector);
        }
        (self.offset & 0x7FFF_FFFF_FFFF_FFFF) + 0x2000
    }

    pub fn gang(&self) -> (r: bool)
        ensures
            r == dva_gang(self.offset),
    {
        self.offset & 0x8000_0000_0000_0000 != 0
    }

    pub fn offset(&self) -> (r: u64)
        ensures
            r == dva_offset(self.offset),
    {
        self.offset & 0x7FFF_FFFF_FFFF_FFFF
    }

    /// Allocated size in sectors; at least one sector, at most 2^24.
    pub fn asize(&self) -> (r: u64)
        ensures
            r == dva_asize(self.vdev),
            1 <= r <= 0x100_0000,
    {
        proof {
            let w = self.vdev;
            assert(w & 0xFFFFFF <= 0xFFFFFF) by (bit_vector);
        }
        (self.vdev & 0xFFFFFF) + 1
    }
}

/// A 128-byte block pointer: three DVAs, the packed size/flags word,
/// birth transaction group, fill count and checksum words.  The 24 bytes
/// of padding between the flags word and the birth txg are not kept.
#[derive(Clone, Copy, Debug)]
pub struct BlockPtr {
    pub dvas: [DVAddr; 3],
    pub flags_size: u64,
    pub birth_txg: u64,
    pub fill_count: u64,
    pub checksum: [u64; 4],
}

/// A decoded block pointer reads exactly the fields of its byte image.
pub open spec fn bp_matches(bp: BlockPtr, p: Seq<u8>) -> bool {
    &&& p.len() == 128
    &&& bp.dvas[0].vdev == le64(p, 0)
    &&& bp.dvas[0].offset == le64(p, 8)
    &&& bp.dvas[1].vdev == le64(p, 16)
    &&& bp.dvas[1].offset == le64(p, 24)
    &&& bp.dvas[2].vdev == le64(p, 32)
    &&& bp.dvas[2].offset == le64(p, 40)
    &&& bp.flags_size == le64(p, 48)
    &&& bp.birth_txg == le64(p, 80)
    &&& bp.fill_count == le64(p, 88)
    &&& bp.checksum[0] == le64(p, 96)
    &&& bp.checksum[1] == le64(p, 104)
    &&& bp.checksum[2] == le64(p, 112)
    &&& bp.checksum[3] == le64(p, 120)
}

impl BlockPtr {
    /// Indirection level, bits 56..62 of the flags word.
    pub fn level(&self) -> (r: u64)
        ensures
            r == (self.flags_size >> 56) & 0x7F,
            r <= 0x7F,
    {
        proof {
            let f = self.flags_size;
            assert((f >> 56) & 0x7F <= 0x7F) by (bit_vector);
        }
        (self.flags_size >> 56) & 0x7F
    }

    /// Object type, bits 48..55.
    pub fn object_type(&self) -> (r: u64)
        ensures
            r == (self.flags_size >> 48) & 0xFF,
    {
        (self.flags_size >> 48) & 0xFF
    }

    /// Checksum algorithm, bits 40..47.
    pub fn checksum(&self) -> (r: u64)
        ensures
            r == (self.flags_size >> 40) & 0xFF,
    {
        (self.flags_size >> 40) & 0xFF
    }

    /// Compression algorithm, bits 32..39.
    pub fn compression(&self) -> (r: u64)
        ensures
            r == (self.flags_size >> 32) & 0xFF,
    {
        (self.flags_size >> 32) & 0xFF
    }

    /// Logical size in sectors, bits 0..15 plus one.
    pub fn lsize(&self) -> (r: u64)
        ensures
            r == spec_lsize(self.flags_size),
            1 <= r <= 0x10000,
    {
        proof {
            let f = self.flags_size;
            assert(f & 0xFFFF <= 0xFFFF) by (bit_vector);
        }
        (self.flags_size & 0xFFFF) + 1
    }

    /// Physical (allocated) size in sectors, bits 16..31 plus one.
    pub fn psize(&self) -> (r: u64)
        ensures
            r == spec_psize(self.flags_size),
            1 <= r <= 0x10000,
    {
        proof {
            let f = self.flags_size;
            assert((f >> 16) & 0xFFFF <= 0xFFFF) by (bit_vector);
        }
        ((self.flags_size >> 16) & 0xFFFF) + 1
    }

    /// Parses the 128-byte block pointer at `off`.
    pub fn parse_at(b: &[u8], off: usize) -> (r: BlockPtr)
        requires
            off + 128 <= b@.len(),
        ensures
            bp_matches(r, b@.subrange(off as int, off as int + 128)),
    {
        let n: usize = b.len();
        let d0 = DVAddr { vdev: read_u64(b, off), offset: read_u64(b, off + 8) };
        let d1 = DVAddr { vdev: read_u64(b, off + 16), offset: read_u64(b, off + 24) };
        let d2 = DVAddr { vdev: read_u64(b, off + 32), offset: read_u64(b, off + 40) };
        let r = BlockPtr {
            dvas: [d0, d1, d2],
            flags_size: read_u64(b, off + 48),
            birth_txg: read_u64(b, off + 80),
            fill_count: read_u64(b, off + 88),
            checksum: [
                read_u64(b, off + 96),
                read_u64(b, off + 104),
                read_u64(b, off + 112),
                read_u64(b, off + 120),
            ],
        };
        proof {
            let o = off as int;
            lemma_le64_sub(b@, o, 128, 0);
            lemma_le64_sub(b@, o, 128, 8);
            lemma_le64_sub(b@, o, 128, 16);
            lemma_le64_sub(b@, o, 128, 24);
            lemma_le64_sub(b@, o, 128, 32);
            lemma_le64_sub(b@, o, 128, 40);
            lemma_le64_sub(b@, o, 128, 48);
            lemma_le64_sub(b@, o, 128, 80);
            lemma_le64_sub(b@, o, 128, 88);
            lemma_le64_sub(b@, o, 128, 96);
            lemma_le64_sub(b@, o, 128, 104);
            lemma_le64_sub(b@, o, 128, 112);
            lemma_le64_sub(b@, o, 128, 120);
        }
        r
    }

    /// Decodes a block pointer from the start of `b`; `None` when the
    /// slice is shorter than the 128-byte record.
    pub fn from_bytes(b: &[u8]) -> (r: Option<BlockPtr>)
        ensures
            r is Some <==> b@.len() >= 128,
            r is Some ==> bp_matches(r.unwrap(), b@.subrange(0, 128)),
    {
        if b.len() >= 128 {
            Some(BlockPtr::parse_at(b, 0))
        } else {
            None
        }
    }
}

/// Compression algorithm tags carried in block pointers: 1 and 3 select
/// LZJB, 2 means no compression.
pub open spec fn spec_lsize(f: u64) -> u64 {
    ((f & 0xFFFF) + 1) as u64
}

pub open spec fn spec_psize(f: u64) -> u64 {
    (((f >> 16) & 0xFFFF) + 1) as u64
}

pub open spec fn spec_compression(f: u64) -> u64 {
    (f >> 32) & 0xFF
}

/// Well-formedness of the packed sizes: with compression off (tag 2)
/// the logical and physical sizes coincide; with any other tag, that is
/// with compression enabled, the logical size is at least the physical
/// size.
pub open spec fn bp_size_valid(f: u64) -> bool {
    &&& spec_compression(f) == 2 ==> spec_lsize(f) == spec_psize(f)
    &&& spec_compression(f) != 2 ==> spec_lsize(f) >= spec_psize(f)
}

/// For every well-formed block pointer, `lsize() == psize()` when
/// compression is off and `lsize() >= psize()` whenever compression is
/// enabled.
pub proof fn lemma_size_invariant(bp: BlockPtr)
    requires
        bp_size_valid(bp.flags_size),
    ensures
        spec_compression(bp.flags_size) == 2 ==> spec_lsize(bp.flags_size) == spec_psize(
            bp.flags_size,
        ),
        spec_compression(bp.flags_size) != 2 ==> spec_lsize(bp.flags_size) >= spec_psize(
            bp.flags_size,
        ),
{
}

/// A gang block header; the reader rejects gang blocks, the canonical
/// magic is recorded for diagnostics only.
#[derive(Clone, Copy, Debug)]
pub struct Gang {
    pub bps: [BlockPtr; 3],
    pub magic: u64,
    pub checksum: u64,
}

impl Gang {
    pub fn magic() -> (r: u64)
        ensures
            r == 0x117a0cb17ada1002u64,
    {
        0x117a0cb17ada1002
    }
}

/// A 168-byte uberblock: magic, version, transaction group, guid sum,
/// timestamp and the root block pointer of the meta object set.
#[derive(Clone, Copy, Debug)]
pub struct Uberblock {
    pub magic: u64,
    pub version: u64,
    pub txg: u64,
    pub guid_sum: u64,
    pub timestamp: u64,
    pub rootbp: BlockPtr,
}

/// A decoded uberblock reads exactly the fields of its byte image.
pub open spec fn ub_matches(u: Uberblock, b: Seq<u8>) -> bool {
    &&& b.len() >= 168
    &&& u.magic == le64(b, 0)
    &&& u.version == le64(b, 8)
    &&& u.txg == le64(b, 16)
    &&& u.guid_sum == le64(b, 24)
    &&& u.timestamp == le64(b, 32)
    &&& bp_matches(u.rootbp, b.subrange(40, 168))
}

/// A byte image decodes as an uberblock exactly when it is long enough
/// and its magic word reads as the canonical value in either byte order:
/// `0x00bab10c` read little-endian, or its 64-bit byte swap when the
/// label is mirrored.
pub open spec fn ub_valid(b: Seq<u8>) -> bool {
    &&& b.len() >= 168
    &&& (le64(b, 0) == 0x0cb1ba00_0000_0000 || le64(b, 0) == 0x00bab10c)
}

impl Uberblock {
    /// The canonical magic as read little-endian from a byte-swapped
    /// image: the 64-bit byte swap of `0x00bab10c`.
    pub fn magic_little() -> (r: u64)
        ensures
            r == 0x0cb1ba00_0000_0000u64,
    {
        0x0cb1ba00_0000_0000
    }

    /// The canonical magic `0x00bab10c`.
    pub fn magic_big() -> (r: u64)
        ensures
            r == 0x00bab10cu64,
    {
        0x00bab10c
    }

    /// Decodes an uberblock, accepting either magic byte order; `None`
    /// when the record is short or the magic is absent.
    pub fn from_bytes(b: &[u8]) -> (r: Option<Uberblock>)
        ensures
            r is Some <==> ub_valid(b@),
            r is Some ==> ub_matches(r.unwrap(), b@),
    {
        if b.len() < 168 {
            return None;
        }
        let magic = read_u64(b, 0);
        if magic != 0x0cb1ba00_0000_0000 && magic != 0x00bab10c {
            return None;
        }
        Some(
            Uberblock {
                magic,
                version: read_u64(b, 8),
                txg: read_u64(b, 16),
                guid_sum: read_u64(b, 24),
                timestamp: read_u64(b, 32),
                rootbp: BlockPtr::parse_at(b, 40),
            },
        )
    }
}

/// A 256 KiB vdev label: 8 KiB blank, 8 KiB boot header, 112 KiB of
/// nvpair data and a ring of 128 uberblock slots of 1 KiB each.
pub struct VdevLabel {
    pub blank: Vec<u8>,
    pub boot_header: Vec<u8>,
    pub nv_pairs: Vec<u8>,
    pub uberblocks: Vec<u8>,
}

impl VdevLabel {
    /// Splits a label image into its four regions; `None` when the image
    /// is shorter than 256 KiB.
    pub fn from_bytes(b: &[u8]) -> (r: Option<VdevLabel>)
        ensures
            r is Some <==> b@.len() >= 262144,
            r is Some ==> {
                let l = r.unwrap();
                &&& l.blank@ == b@.subrange(0, 8192)
                &&& l.boot_header@ == b@.subrange(8192, 16384)
                &&& l.nv_pairs@ == b@.subrange(16384, 131072)
                &&& l.uberblocks@ == b@.subrange(131072, 262144)
            },
    {
        if b.len() < 262144 {
            return None;
        }
        Some(
            VdevLabel {
                blank: vstd::slice::slice_to_vec(vstd::slice::slice_subrange(b, 0, 8192)),
                boot_header: vstd::slice::slice_to_vec(
                    vstd::slice::slice_subrange(b, 8192, 16384),
                ),
                nv_pairs: vstd::slice::slice_to_vec(
                    vstd::slice::slice_subrange(b, 16384, 131072),
                ),
                uberblocks: vstd::slice::slice_to_vec(
                    vstd::slice::slice_subrange(b, 131072, 262144),
                ),
            },
        )
    }
}

/// The 16-byte image of a DVA.
pub open spec fn dva_image(d: DVAddr) -> Seq<u8> {
    spec_u64_to_le_bytes(d.vdev) + spec_u64_to_le_bytes(d.offset)
}

/// The 128-byte image of a block pointer, with zero padding words.
pub open spec fn bp_image(bp: BlockPtr) -> Seq<u8> {
    dva_image(bp.dvas[0]) + dva_image(bp.dvas[1]) + dva_image(bp.dvas[2]) + spec_u64_to_le_bytes(
        bp.flags_size,
    ) + spec_u64_to_le_bytes(0) + spec_u64_to_le_bytes(0) + spec_u64_to_le_bytes(0)
        + spec_u64_to_le_bytes(bp.birth_txg) + spec_u64_to_le_bytes(bp.fill_count)
        + spec_u64_to_le_bytes(bp.checksum[0]) + spec_u64_to_le_bytes(bp.checksum[1])
        + spec_u64_to_le_bytes(bp.checksum[2]) + spec_u64_to_le_bytes(bp.checksum[3])
}

/// The 168-byte image of an uberblock.
pub open spec fn ub_image(u: Uberblock) -> Seq<u8> {
    spec_u64_to_le_bytes(u.magic) + spec_u64_to_le_bytes(u.version) + spec_u64_to_le_bytes(u.txg)
        + spec_u64_to_le_bytes(u.guid_sum) + spec_u64_to_le_bytes(u.timestamp) + bp_image(u.rootbp)
}

impl DVAddr {
    /// Re-encodes the DVA into its packed byte layout.
    pub fn to_bytes(&self) -> (r: Vec<u8>)
        ensures
            r@ == dva_image(*self),
    {
        let mut v = u64_to_le_bytes(self.vdev);
        let mut o = u64_to_le_bytes(self.offset);
        v.append(&mut o);
        v
    }
}

impl BlockPtr {
    /// Re-encodes the block pointer into its packed byte layout, with
    /// zero padding words.
    pub fn to_bytes(&self) -> (r: Vec<u8>)
        ensures
            r@ == bp_image(*self),
    {
        let mut v = self.dvas[0].to_bytes();
        let mut t = self.dvas[1].to_bytes();
        v.append(&mut t);
        let mut t = self.dvas[2].to_bytes();
        v.append(&mut t);
        let mut t = u64_to_le_bytes(self.flags_size);
        v.append(&mut t);
        let mut t = u64_to_le_bytes(0);
        v.append(&mut t);
        let mut t = u64_to_le_bytes(0);
        v.append(&mut t);
        let mut t = u64_to_le_bytes(0);
        v.append(&mut t);
        let mut t = u64_to_le_bytes(self.birth_txg);
        v.append(&mut t);
        let mut t = u64_to_le_bytes(self.fill_count);
        v.append(&mut t);
        let mut t = u64_to_le_bytes(self.checksum[0]);
        v.append(&mut t);
        let mut t = u64_to_le_bytes(self.checksum[1]);
        v.append(&mut t);
        let mut t = u64_to_le_bytes(self.checksum[2]);
        v.append(&mut t);
        let mut t = u64_to_le_bytes(self.checksum[3]);
        v.append(&mut t);
        proof {
            assert(v@ =~= bp_image(*self));
        }
        v
    }
}

impl Uberblock {
    /// Re-encodes the uberblock into its packed byte layout.
    pub fn to_bytes(&self) -> (r: Vec<u8>)
        ensures
            r@ == ub_image(*self),
    {
        let mut v = u64_to_le_bytes(self.magic);
        let mut t = u64_to_le_bytes(self.version);
        v.append(&mut t);
        let mut t = u64_to_le_bytes(self.txg);
        v.append(&mut t);
        let mut t = u64_to_le_bytes(self.guid_sum);
        v.append(&mut t);
        let mut t = u64_to_le_bytes(self.timestamp);
        v.append(&mut t);
        let mut t = self.rootbp.to_bytes();
        v.append(&mut t);
        proof {
            assert(v@ =~= ub_image(*self));
        }
        v
    }
}

/// Decoding the re-encoded image of a block pointer restores its fields.
pub proof fn lemma_bp_round_trip(bp: BlockPtr)
    ensures
        bp_image(bp).len() == 128,
        bp_matches(bp, bp_image(bp)),
{
    lemma_auto_spec_u64_to_from_le_bytes();
    let p = bp_image(bp);
    assert(p.subrange(0, 8) =~= spec_u64_to_le_bytes(bp.dvas[0].vdev));
    assert(p.subrange(8, 16) =~= spec_u64_to_le_bytes(bp.dvas[0].offset));
    assert(p.subrange(16, 24) =~= spec_u64_to_le_bytes(bp.dvas[1].vdev));
    assert(p.subrange(24, 32) =~= spec_u64_to_le_bytes(bp.dvas[1].offset));
    assert(p.subrange(32, 40) =~= spec_u64_to_le_bytes(bp.dvas[2].vdev));
    assert(p.subrange(40, 48) =~= spec_u64_to_le_bytes(bp.dvas[2].offset));
    assert(p.subrange(48, 56) =~= spec_u64_to_le_bytes(bp.flags_size));
    assert(p.subrange(80, 88) =~= spec_u64_to_le_bytes(bp.birth_txg));
    assert(p.subrange(88, 96) =~= spec_u64_to_le_bytes(bp.fill_count));
    assert(p.subrange(96, 104) =~= spec_u64_to_le_bytes(bp.checksum[0]));
    assert(p.subrange(104, 112) =~= spec_u64_to_le_bytes(bp.checksum[1]));
    assert(p.subrange(112, 120) =~= spec_u64_to_le_bytes(bp.checksum[2]));
    assert(p.subrange(120, 128) =~= spec_u64_to_le_bytes(bp.checksum[3]));
}

/// Re-encoding a decoded block pointer reproduces its byte image, as
/// long as the padding words of the image are zero.
pub proof fn lemma_bp_image_exact(bp: BlockPtr, p: Seq<u8>)
    requires
        bp_matches(bp, p),
        le64(p, 56) == 0,
        le64(p, 64) == 0,
        le64(p, 72) == 0,
    ensures
        bp_image(bp) == p,
{
    lemma_auto_spec_u64_to_from_le_bytes();
    assert(spec_u64_to_le_bytes(le64(p, 0)) == p.subrange(0, 8));
    assert(spec_u64_to_le_bytes(le64(p, 8)) == p.subrange(8, 16));
    assert(spec_u64_to_le_bytes(le64(p, 16)) == p.subrange(16, 24));
    assert(spec_u64_to_le_bytes(le64(p, 24)) == p.subrange(24, 32));
    assert(spec_u64_to_le_bytes(le64(p, 32)) == p.subrange(32, 40));
    assert(spec_u64_to_le_bytes(le64(p, 40)) == p.subrange(40, 48));
    assert(spec_u64_to_le_bytes(le64(p, 48)) == p.subrange(48, 56));
    assert(spec_u64_to_le_bytes(le64(p, 56)) == p.subrange(56, 64));
    assert(spec_u64_to_le_bytes(le64(p, 64)) == p.subrange(64, 72));
    assert(spec_u64_to_le_bytes(le64(p, 72)) == p.subrange(72, 80));
    assert(spec_u64_to_le_bytes(le64(p, 80)) == p.subrange(80, 88));
    assert(spec_u64_to_le_bytes(le64(p, 88)) == p.subrange(88, 96));
    assert(spec_u64_to_le_bytes(le64(p, 96)) == p.subrange(96, 104));
    assert(spec_u64_to_le_bytes(le64(p, 104)) == p.subrange(104, 112));
    assert(spec_u64_to_le_bytes(le64(p, 112)) == p.subrange(112, 120));
    assert(spec_u64_to_le_bytes(le64(p, 120)) == p.subrange(120, 128));
    assert(bp_image(bp) =~= p);
}

/// Decoding the re-encoded image of an uberblock restores its fields.
pub proof fn lemma_ub_round_trip(u: Uberblock)
    ensures
        ub_image(u).len() == 168,
        u.magic == le64(ub_image(u), 0),
        u.version == le64(ub_image(u), 8),
        u.txg == le64(ub_image(u), 16),
        u.guid_sum == le64(ub_image(u), 24),
        u.timestamp == le64(ub_image(u), 32),
        bp_matches(u.rootbp, ub_image(u).subrange(40, 168)),
{
    lemma_auto_spec_u64_to_from_le_bytes();
    lemma_bp_round_trip(u.rootbp);
    let b = ub_image(u);
    assert(b.subrange(0, 8) =~= spec_u64_to_le_bytes(u.magic));
    assert(b.subrange(8, 16) =~= spec_u64_to_le_bytes(u.version));
    assert(b.subrange(16, 24) =~= spec_u64_to_le_bytes(u.txg));
    assert(b.subrange(24, 32) =~= spec_u64_to_le_bytes(u.guid_sum));
    assert(b.subrange(32, 40) =~= spec_u64_to_le_bytes(u.timestamp));
    assert(b.subrange(40, 168) =~= bp_image(u.rootbp));
}

} // verus!
