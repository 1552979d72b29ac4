//! The in-memory record filesystem: 256-byte name/data records.
//!
//! A node is a file or a directory.  Both start with a 64-byte name
//! field; a directory's own header is a run of 256-byte records each
//! ending in `b'#'`, and the node table follows that header.

use vstd::prelude::*;
use vstd::slice::{slice_subrange, slice_to_vec};

verus! {

/// A data node: file or directory.
pub enum Data {
    /// A file node.
    File(File),
    /// A directory node.
    Dir(Dir),
}

/// A file: its 64-byte name field and its content bytes.
pub struct File {
    pub name: Vec<u8>,
    pub data: Vec<u8>,
}

impl File {
    /// Decodes a file record: bytes 0..64 are the name field and the
    /// content starts at byte 257.
    pub fn from_bytes(b: &[u8]) -> (r: File)
        requires
            b@.len() >= 257,
        ensures
            r.name@ == b@.subrange(0, 64),
            r.data@ == b@.skip(257),
    {
        let n: usize = b.len();
        File {
            name: slice_to_vec(slice_subrange(b, 0, 64)),
            data: slice_to_vec(slice_subrange(b, 257, n)),
        }
    }
}

/// Where a directory's header ends: the first offset past every leading
/// 256-byte record that closes with `b'#'`.
pub open spec fn spec_header_end(b: Seq<u8>, n: int) -> int
    decreases b.len() - n,
{
    if 0 <= n && n + 255 < b.len() && b[n + 255] == 35u8 {
        spec_header_end(b, n + 256)
    } else {
        n
    }
}

/// A directory: its 64-byte name field and the table bytes after its
/// header records.
pub struct Dir {
    pub name: Vec<u8>,
    pub data: Vec<u8>,
}

impl Dir {
    /// Decodes a directory record, skipping the `#`-terminated header
    /// records before the node table.
    pub fn from_bytes(b: &[u8]) -> (r: Dir)
        requires
            b@.len() >= 64,
        ensures
            r.name@ == b@.subrange(0, 64),
            r.data@ == b@.skip(spec_header_end(b@, 0)),
    {
        let len: usize = b.len();
        let mut n: usize = 0;
        while len - n > 255 && *vstd::slice::slice_index_get(b, n + 255) == 35u8
            invariant
                n <= len,
                len == b@.len(),
                spec_header_end(b@, n as int) == spec_header_end(b@, 0),
            decreases len - n,
        {
            n = n + 256;
        }
        Dir {
            name: slice_to_vec(slice_subrange(b, 0, 64)),
            data: slice_to_vec(slice_subrange(b, n, len)),
        }
    }

    /// The node table held by this directory.
    pub fn get_table(&self) -> (r: NodeTable)
        ensures
            r.bytes@ == self.data@,
    {
        NodeTable { bytes: slice_to_vec(self.data.as_slice()) }
    }
}

/// The raw bytes of a directory's node table.
pub struct NodeTable {
    pub bytes: Vec<u8>,
}

} // verus!
