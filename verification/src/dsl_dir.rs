//! The DSL directory record carried in a dnode's bonus area.
//!
//! Only the head dataset object number is consumed by the reader; the
//! creation time is kept for diagnostics.

use vstd::prelude::*;
use crate::codec::{le64, read_u64};

verus! {

/// The fixed-offset `u64` fields of a DSL directory bonus buffer.
#[derive(Clone, Copy, Debug, PartialEq, Eq, Structural)]
pub struct DslDirPhys {
    pub creation_time: u64,
    pub head_dataset_obj: u64,
}

impl DslDirPhys {
    /// Decodes the record; `None` when the bonus area is too short.
    pub fn from_bytes(b: &[u8]) -> (r: Option<DslDirPhys>)
        ensures
            r is Some <==> b@.len() >= 16,
            r is Some ==> {
                let d = r.unwrap();
                &&& d.creation_time == le64(b@, 0)
                &&& d.head_dataset_obj == le64(b@, 8)
            },
    {
        if b.len() < 16 {
            return None;
        }
        Some(DslDirPhys { creation_time: read_u64(b, 0), head_dataset_obj: read_u64(b, 8) })
    }
}

} // verus!
