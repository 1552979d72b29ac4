//! Dnodes and object sets.
//!
//! A 512-byte dnode describes one object: its type, the shape of its
//! indirect-block tree, and a 448-byte tail holding `nblkptr` block
//! pointers followed by the bonus area.  An object set is a block whose
//! first 512 bytes are the meta dnode describing the set's dnode array.

use vstd::prelude::*;
use crate::codec::{le16, le64, read_u16, read_u64, lemma_le16_sub, lemma_le64_sub};
use crate::ondisk::{BlockPtr, bp_matches};
use vstd::slice::{slice_index_get, slice_subrange, slice_to_vec};

verus! {

/// The dnode's tail region within its 512-byte image.
pub open spec fn dn_tail(d: Seq<u8>) -> Seq<u8> {
    d.subrange(64, 512)
}

/// The bytes of block pointer `i` within a dnode image.
pub open spec fn dn_blkptr_bytes(d: Seq<u8>, i: int) -> Seq<u8> {
    d.subrange(64 + 128 * i, 192 + 128 * i)
}

/// One object of an object set, decoded from a 512-byte record.
pub struct DNodePhys {
    pub object_type: u8,
    pub indblkshift: u8,
    pub nlevels: u8,
    pub nblkptr: u8,
    pub bonus_type: u8,
    pub checksum: u8,
    pub compress: u8,
    pub flags: u8,
    pub data_blk_sz_sec: u16,
    pub bonus_len: u16,
    pub maxblkid: u64,
    pub used: u64,
    /// `nblkptr` block pointers of 128 bytes, then the bonus area.
    pub tail: Vec<u8>,
}

/// A decoded dnode reads exactly the fields of its 512-byte image.
pub open spec fn dnode_matches(dn: DNodePhys, d: Seq<u8>) -> bool {
    &&& d.len() == 512
    &&& dn.object_type == d[0]
    &&& dn.indblkshift == d[1]
    &&& dn.nlevels == d[2]
    &&& dn.nblkptr == d[3]
    &&& dn.bonus_type == d[4]
    &&& dn.checksum == d[5]
    &&& dn.compress == d[6]
    &&& dn.flags == d[7]
    &&& dn.data_blk_sz_sec == le16(d, 8)
    &&& dn.bonus_len == le16(d, 10)
    &&& dn.maxblkid == le64(d, 16)
    &&& dn.used == le64(d, 24)
    &&& dn.tail@ == dn_tail(d)
}

impl DNodePhys {
    /// Parses the 512-byte dnode record at `off`.
    pub fn parse_at(b: &[u8], off: usize) -> (r: DNodePhys)
        requires
            off + 512 <= b@.len(),
        ensures
            dnode_matches(r, b@.subrange(off as int, off as int + 512)),
    {
        let n: usize = b.len();
        let r = DNodePhys {
            object_type: *slice_index_get(b, off),
            indblkshift: *slice_index_get(b, off + 1),
            nlevels: *slice_index_get(b, off + 2),
            nblkptr: *slice_index_get(b, off + 3),
            bonus_type: *slice_index_get(b, off + 4),
            checksum: *slice_index_get(b, off + 5),
            compress: *slice_index_get(b, off + 6),
            flags: *slice_index_get(b, off + 7),
            data_blk_sz_sec: read_u16(b, off + 8),
            bonus_len: read_u16(b, off + 10),
            maxblkid: read_u64(b, off + 16),
            used: read_u64(b, off + 24),
            tail: slice_to_vec(slice_subrange(b, off + 64, off + 512)),
        };
        proof {
            let o = off as int;
            lemma_le16_sub(b@, o, 512, 8);
            lemma_le16_sub(b@, o, 512, 10);
            lemma_le64_sub(b@, o, 512, 16);
            lemma_le64_sub(b@, o, 512, 24);
            assert(b@.subrange(o + 64, o + 512) =~= dn_tail(b@.subrange(o, o + 512)));
        }
        r
    }

    /// Decodes a dnode from the start of `b`; `None` when the slice is
    /// shorter than the 512-byte record.
    pub fn from_bytes(b: &[u8]) -> (r: Option<DNodePhys>)
        ensures
            r is Some <==> b@.len() >= 512,
            r is Some ==> dnode_matches(r.unwrap(), b@.subrange(0, 512)),
    {
        if b.len() >= 512 {
            Some(DNodePhys::parse_at(b, 0))
        } else {
            None
        }
    }

    /// Block pointer `i` of the tail.
    pub fn get_blockptr(&self, i: usize) -> (r: BlockPtr)
        requires
            i < 3,
            self.tail@.len() == 448,
        ensures
            bp_matches(r, self.tail@.subrange(128 * i as int, 128 * i as int + 128)),
    {
        BlockPtr::parse_at(self.tail.as_slice(), i * 128)
    }

    /// The bonus area: everything in the tail past the block pointers.
    pub fn get_bonus(&self) -> (r: &[u8])
        requires
            self.nblkptr <= 3,
            self.tail@.len() == 448,
        ensures
            r@ == self.tail@.subrange(128 * self.nblkptr as int, 448),
    {
        slice_subrange(self.tail.as_slice(), (self.nblkptr as usize) * 128, 448)
    }
}

/// The ZIL header that sits between the meta dnode and the object-set
/// type word; the reader carries it through without replaying the log.
pub struct ZilHeader {
    pub claim_txg: u64,
    pub replay_seq: u64,
    pub log: BlockPtr,
}

/// An object set: the meta dnode describing the set's dnode array, the
/// ZIL header and the set type.
pub struct ObjectSetPhys {
    pub meta_dnode: DNodePhys,
    pub zil_header: ZilHeader,
    pub os_type: u64,
}

/// A decoded object set reads exactly the fields of its byte image.
pub open spec fn objset_matches(os: ObjectSetPhys, b: Seq<u8>) -> bool {
    &&& b.len() >= 664
    &&& dnode_matches(os.meta_dnode, b.subrange(0, 512))
    &&& os.zil_header.claim_txg == le64(b, 512)
    &&& os.zil_header.replay_seq == le64(b, 520)
    &&& bp_matches(os.zil_header.log, b.subrange(528, 656))
    &&& os.os_type == le64(b, 656)
}

impl ObjectSetPhys {
    /// Decodes an object set header; `None` when the block is shorter
    /// than the 664-byte record.
    pub fn from_bytes(b: &[u8]) -> (r: Option<ObjectSetPhys>)
        ensures
            r is Some <==> b@.len() >= 664,
            r is Some ==> objset_matches(r.unwrap(), b@),
    {
        if b.len() < 664 {
            return None;
        }
        let meta = DNodePhys::parse_at(b, 0);
        let zil = ZilHeader {
            claim_txg: read_u64(b, 512),
            replay_seq: read_u64(b, 520),
            log: BlockPtr::parse_at(b, 528),
        };
        let os_type = read_u64(b, 656);
        proof {
            assert(b@.subrange(0, 512) =~= b@.subrange(0 as int, 0 as int + 512));
            assert(b@.subrange(528, 656) =~= b@.subrange(528 as int, 528 as int + 128));
        }
        Some(ObjectSetPhys { meta_dnode: meta, zil_header: zil, os_type })
    }
}

} // verus!
