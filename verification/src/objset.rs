//! Resolving an object number inside an object set.
//!
//! The meta dnode of an object set describes the array of 512-byte
//! dnodes composing the set.  To fetch object `n` the resolver descends
//! the indirect-block tree from the meta dnode's first block pointer,
//! indexing each indirect block by the leaf block id derived from `n`,
//! until it reaches the level-0 leaf holding the dnode record itself.

use vstd::prelude::*;
use crate::ZfsError;
use crate::codec::{le16, le64};
use crate::device::{ZfsHelper, spec_read_block};
use crate::dnode::{DNodePhys, dn_tail, dnode_matches};
use crate::ondisk::{BlockPtr, bp_matches};

verus! {

/// The indirection level recorded in a block pointer image.
pub open spec fn bp_level_of(p: Seq<u8>) -> u64 {
    (le64(p, 48) >> 56) & 0x7F
}

/// Descent through the indirect tree: materialise `p`; at level 0 that
/// block is the answer, otherwise pick the child pointer selected by
/// `leaf_id` and recurse.  A child whose recorded level does not strictly
/// decrease is malformed; a child index beyond the materialised block
/// means the object is missing.
pub open spec fn spec_descend(img: Seq<u8>, p: Seq<u8>, leaf_id: u64, ibs: u8) -> Result<
    Seq<u8>,
    ZfsError,
>
    recommends
        p.len() == 128,
        7 <= ibs < 64,
    decreases bp_level_of(p),
{
    let lvl = bp_level_of(p);
    match spec_read_block(img, p) {
        Err(e) => Err(e),
        Ok(block) => {
            if lvl == 0 {
                Ok(block)
            } else {
                let fanshift = (ibs - 7) as u64;
                let sh = (lvl - 1) * fanshift;
                let index = if sh >= 64 {
                    0u64
                } else {
                    (leaf_id >> sh) & (((1u64 << fanshift) - 1) as u64)
                };
                let off = index * 128;
                if off + 128 > block.len() {
                    Err(ZfsError::ObjectMissing)
                } else {
                    let child = block.subrange(off as int, off as int + 128);
                    if bp_level_of(child) >= lvl {
                        Err(ZfsError::Malformed)
                    } else {
                        spec_descend(img, child, leaf_id, ibs)
                    }
                }
            }
        },
    }
}

/// Materialises the level-0 block that `pb` leads to for `leaf_id`.
fn descend(helper: &ZfsHelper, cur: BlockPtr, Ghost(pb): Ghost<Seq<u8>>, leaf_id: u64, ibs: u8) -> (r: Result<
    Vec<u8>,
    ZfsError,
>)
    requires
        bp_matches(cur, pb),
        7 <= ibs < 64,
    ensures
        match spec_descend(helper.img(), pb, leaf_id, ibs) {
            Ok(d) => r is Ok && r.unwrap()@ == d,
            Err(e) => r matches Err(e2) && e2 == e,
        },
    decreases bp_level_of(pb),
{
    let block = match helper.read_block(&cur) {
        Ok(b) => b,
        Err(e) => {
            proof {
                assert(spec_read_block(helper.img(), pb) is Err);
            }
            return Err(e);
        },
    };
    let lvl: u64 = cur.level();
    proof {
        assert(lvl == bp_level_of(pb));
    }
    if lvl == 0 {
        return Ok(block);
    }
    let fanshift: u64 = (ibs - 7) as u64;
    proof {
        assert((lvl - 1) * fanshift <= 127 * 56) by (nonlinear_arith)
            requires
                1 <= lvl <= 0x7F,
                fanshift <= 56,
        ;
    }
    let sh: u64 = (lvl - 1) * fanshift;
    let index: u64 = if sh >= 64 {
        0
    } else {
        proof {
            assert(1u64 << fanshift >= 1) by (bit_vector)
                requires
                    fanshift < 64,
            ;
        }
        let fan: u64 = 1u64 << fanshift;
        proof {
            let l = leaf_id;
            let s = sh;
            let f = fan;
            assert((l >> s) & ((f - 1) as u64) <= (f - 1) as u64) by (bit_vector)
                requires
                    f >= 1,
            ;
            assert((f - 1) as u64 <= 0xFF_FFFF_FFFF_FFFFu64) by (bit_vector)
                requires
                    f == 1u64 << fanshift,
                    fanshift <= 56,
            ;
            assert(f - 1 == (f - 1) as u64);
        }
        (leaf_id >> sh) & (fan - 1)
    };
    proof {
        assert(index <= 0xFF_FFFF_FFFF_FFFFu64);
    }
    let off: u64 = index * 128;
    let blen: usize = block.len();
    if off + 128 > blen as u64 {
        return Err(ZfsError::ObjectMissing);
    }
    let child = BlockPtr::parse_at(block.as_slice(), off as usize);
    let child_lvl = child.level();
    let ghost cb = block@.subrange(off as int, off as int + 128);
    proof {
        assert(child_lvl == bp_level_of(cb));
    }
    if child_lvl >= lvl {
        return Err(ZfsError::Malformed);
    }
    descend(helper, child, Ghost(cb), leaf_id, ibs)
}

/// Resolving object `obj` against the meta dnode image `m`: derive the
/// leaf block id and the index within the leaf from the meta dnode's
/// data block size, descend the tree from its first block pointer, and
/// cut the 512-byte dnode record out of the leaf.
pub open spec fn spec_resolve(img: Seq<u8>, m: Seq<u8>, obj: u64) -> Result<Seq<u8>, ZfsError>
    recommends
        m.len() == 512,
{
    let ibs = m[1];
    let nbp = m[3];
    let per = le16(m, 8) as u64;
    if nbp == 0 || nbp > 3 || per == 0 || ibs < 7 || ibs >= 64 {
        Err(ZfsError::Malformed)
    } else {
        let leaf_id = obj / per;
        let idx = obj % per;
        match spec_descend(img, m.subrange(64, 192), leaf_id, ibs) {
            Err(e) => Err(e),
            Ok(leaf) => {
                let off = idx * 512;
                if off + 512 > leaf.len() {
                    Err(ZfsError::ObjectMissing)
                } else {
                    Ok(leaf.subrange(off as int, off as int + 512))
                }
            },
        }
    }
}

/// Fetches the dnode of object `obj` from the object set described by
/// `meta`.
pub fn read_dnode(helper: &ZfsHelper, meta: &DNodePhys, obj: u64) -> (r: Result<
    DNodePhys,
    ZfsError,
>)
    requires
        meta.tail@.len() == 448,
    ensures
        forall|m: Seq<u8>|
            dnode_matches(*meta, m) ==> match #[trigger] spec_resolve(helper.img(), m, obj) {
                Ok(d) => r is Ok && dnode_matches(r.unwrap(), d),
                Err(e) => r matches Err(e2) && e2 == e,
            },
{
    let ibs = meta.indblkshift;
    let nbp = meta.nblkptr;
    let per: u64 = meta.data_blk_sz_sec as u64;
    if nbp == 0 || nbp > 3 || per == 0 || ibs < 7 || ibs >= 64 {
        return Err(ZfsError::Malformed);
    }
    let leaf_id: u64 = obj / per;
    let idx: u64 = obj % per;
    let cur: BlockPtr = meta.get_blockptr(0);
    let ghost pb0: Seq<u8> = meta.tail@.subrange(0, 128);
    proof {
        assert forall|m: Seq<u8>| dnode_matches(*meta, m) implies m.subrange(64, 192) == pb0 by {
            assert(m.subrange(64, 192) =~= dn_tail(m).subrange(0, 128));
        }
    }
    let leaf = match descend(helper, cur, Ghost(pb0), leaf_id, ibs) {
        Ok(b) => b,
        Err(e) => {
            return Err(e);
        },
    };
    let off: u64 = idx * 512;
    let llen: usize = leaf.len();
    proof {
        assert(idx < per);
    }
    if off + 512 > llen as u64 {
        return Err(ZfsError::ObjectMissing);
    }
    let dn = DNodePhys::parse_at(leaf.as_slice(), off as usize);
    Ok(dn)
}

} // verus!
