//! Read-only ZFS pool-image reader.
//!
//! Opens a raw ZFS pool image held in memory, scans the uberblock ring for
//! the newest valid uberblock, walks the object-set and DSL metadata down to
//! the first (root) dataset, and from there lists directories and reads file
//! contents.  All on-disk structures are decoded field by field from
//! little-endian packed byte layouts; LZJB-compressed blocks are expanded by
//! a verified decompressor.  The pool is never written.

use vstd::prelude::*;

pub mod codec;
pub mod lzjb;
pub mod ondisk;
pub mod dnode;
pub mod zap;
pub mod dsl_dir;
pub mod dsl_dataset;
pub mod device;
pub mod objset;
pub mod path;
pub mod zfs;
pub mod data;

verus! {

/// Everything that can go wrong while reading a pool image.
#[derive(Clone, Copy, Debug, PartialEq, Eq, Structural)]
pub enum ZfsError {
    /// The backing byte source cannot satisfy a requested sector range.
    IoError,
    /// No slot of the uberblock ring decodes to a valid uberblock.
    NoValidUberblock,
    /// A record is shorter than its declared layout, or a field is impossible.
    Malformed,
    /// A feature outside the reader's scope: unknown compression, gang
    /// blocks, non-micro ZAP blocks.
    Unsupported,
    /// An LZJB back-reference points before the start of the output.
    CorruptCompression,
    /// A path segment is missing from its directory; the payload is the
    /// index of the failing segment.
    NotFound(usize),
    /// The terminal object of a `read_file` path is not a plain file.
    NotAFile,
    /// The terminal object of an `ls` path is not a directory.
    NotADirectory,
    /// An object number points outside the materialised dnode array.
    ObjectMissing,
}

} // verus!
