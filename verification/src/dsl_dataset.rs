//! The DSL dataset record carried in a dnode's bonus area.
//!
//! After sixteen fixed-offset `u64` fields the record holds the block
//! pointer of the dataset's object set; that pointer and the owning
//! directory object are what the reader consumes.

use vstd::prelude::*;
use crate::codec::{le64, read_u64};
use crate::ondisk::{BlockPtr, bp_matches};

verus! {

/// The parts of a DSL dataset bonus buffer that the reader keeps.
pub struct DslDatasetPhys {
    pub dir_obj: u64,
    pub bp: BlockPtr,
}

impl DslDatasetPhys {
    /// Decodes the record; `None` when the bonus area is shorter than
    /// the 256 bytes up to and including the block pointer.
    pub fn from_bytes(b: &[u8]) -> (r: Option<DslDatasetPhys>)
        ensures
            r is Some <==> b@.len() >= 256,
            r is Some ==> {
                let d = r.unwrap();
                &&& d.dir_obj == le64(b@, 0)
                &&& bp_matches(d.bp, b@.subrange(128, 256))
            },
    {
        if b.len() < 256 {
            return None;
        }
        let r = DslDatasetPhys { dir_obj: read_u64(b, 0), bp: BlockPtr::parse_at(b, 128) };
        proof {
            assert(b@.subrange(128, 256) =~= b@.subrange(128 as int, 128 as int + 128));
        }
        Some(r)
    }
}

} // verus!
