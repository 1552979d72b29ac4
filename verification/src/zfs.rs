//! The reader itself: open a pool image, then list directories and read
//! files of the first (root) dataset.
//!
//! Opening scans the uberblock ring, materialises the meta object set,
//! follows the object directory to the root DSL directory, its head
//! dataset and that dataset's object set, and finally finds the root
//! directory object through the `ROOT` entry of the master node.  Every
//! step is mirrored by a spec function over the raw image bytes, and the
//! executable code returns exactly what the mirror prescribes.

use vstd::prelude::*;
use crate::ZfsError;
use crate::codec::{le64, read_u64, lemma_le64_sub};
use crate::device::{ZfsHelper, best_slot_upto, slot_bytes, spec_read_block};
use crate::dnode::{DNodePhys, ObjectSetPhys, dnode_matches};
use crate::dsl_dataset::DslDatasetPhys;
use crate::dsl_dir::DslDirPhys;
use crate::objset::{read_dnode, spec_resolve};
use crate::ondisk::{Uberblock, ub_matches};
use crate::path::{spec_segments, split_path};
use crate::zap::{
    MZapWrapper, lemma_lookup_bridge, lemma_names_bridge, mzap_is_micro, nul_trunc,
    spec_mzap_lookup, spec_mzap_names, lemma_nul_trunc_take,
};

verus! {

/// The object type tag of a directory dnode.
pub const OBJ_TYPE_DIR: u8 = 0x14;

/// The object type tag of a plain-file dnode.
pub const OBJ_TYPE_FILE: u8 = 0x13;

/// The type word that opens every micro-ZAP block.
pub const ZBT_MICRO: u64 = 0x8000_0000_0000_0003;

/// The bonus area of a dnode image: the tail past its block pointers.
pub open spec fn spec_bonus(d: Seq<u8>) -> Seq<u8>
    recommends
        d.len() == 512,
        d[3] <= 3,
{
    d.subrange(64 + 128 * (d[3] as int), 512)
}

/// The meta dnode of the meta object set: the winning uberblock's root
/// block pointer, materialised and cut to its first 512 bytes.
pub open spec fn spec_mos_meta(img: Seq<u8>) -> Result<Seq<u8>, ZfsError> {
    let bi = best_slot_upto(img, 128);
    if bi < 0 {
        Err(ZfsError::NoValidUberblock)
    } else {
        match spec_read_block(img, slot_bytes(img, bi).subrange(40, 168)) {
            Err(e) => Err(e),
            Ok(mos) => if mos.len() < 664 {
                Err(ZfsError::Malformed)
            } else {
                Ok(mos.subrange(0, 512))
            },
        }
    }
}

/// The root dataset object number: the value of the first chunk of the
/// object directory, which is object 1 of the meta object set.
pub open spec fn spec_root_ds_obj(img: Seq<u8>, mm: Seq<u8>) -> Result<u64, ZfsError> {
    match spec_resolve(img, mm, 1) {
        Err(e) => Err(e),
        Ok(d1) => match spec_read_block(img, d1.subrange(64, 192)) {
            Err(e) => Err(e),
            Ok(zb) => if zb.len() < 64 {
                Err(ZfsError::Malformed)
            } else if !mzap_is_micro(zb) {
                Err(ZfsError::Unsupported)
            } else if (zb.len() - 64) / 64 < 1 {
                Err(ZfsError::Malformed)
            } else {
                Ok(le64(zb, 64))
            },
        },
    }
}

/// The head dataset object number, read from the root DSL directory's
/// bonus buffer.
pub open spec fn spec_head_ds_obj(img: Seq<u8>, mm: Seq<u8>, rds: u64) -> Result<u64, ZfsError> {
    match spec_resolve(img, mm, rds) {
        Err(e) => Err(e),
        Ok(d) => if d[3] > 3 {
            Err(ZfsError::Malformed)
        } else {
            Ok(le64(spec_bonus(d), 8))
        },
    }
}

/// The filesystem object set block: the head dataset's bonus buffer
/// carries the block pointer of the dataset's object set.
pub open spec fn spec_fs_block(img: Seq<u8>, mm: Seq<u8>, hds: u64) -> Result<Seq<u8>, ZfsError> {
    match spec_resolve(img, mm, hds) {
        Err(e) => Err(e),
        Ok(d) => if d[3] > 3 {
            Err(ZfsError::Malformed)
        } else {
            let bonus = spec_bonus(d);
            if bonus.len() < 256 {
                Err(ZfsError::Malformed)
            } else {
                match spec_read_block(img, bonus.subrange(128, 256)) {
                    Err(e) => Err(e),
                    Ok(fsb) => if fsb.len() < 664 {
                        Err(ZfsError::Malformed)
                    } else {
                        Ok(fsb)
                    },
                }
            }
        },
    }
}

/// The key of the master node's entry naming the root directory object.
pub open spec fn root_key() -> Seq<u8> {
    seq![0x52u8, 0x4Fu8, 0x4Fu8, 0x54u8]
}

/// The root directory object number: the `ROOT` entry of the master
/// node, which is object 1 of the filesystem object set.
pub open spec fn spec_root_obj(img: Seq<u8>, fsm: Seq<u8>) -> Result<u64, ZfsError> {
    match spec_resolve(img, fsm, 1) {
        Err(e) => Err(e),
        Ok(d) => match spec_read_block(img, d.subrange(64, 192)) {
            Err(e) => Err(e),
            Ok(zb) => if zb.len() < 64 {
                Err(ZfsError::Malformed)
            } else if !mzap_is_micro(zb) {
                Err(ZfsError::Unsupported)
            } else {
                match spec_mzap_lookup(zb, root_key(), 0) {
                    None => Err(ZfsError::Malformed),
                    Some(v) => Ok(v),
                }
            },
        },
    }
}

/// Opening a pool image: the filesystem object set block and the root
/// directory object number it leads to.
pub open spec fn spec_open(img: Seq<u8>) -> Result<(Seq<u8>, u64), ZfsError> {
    match spec_mos_meta(img) {
        Err(e) => Err(e),
        Ok(mm) => match spec_root_ds_obj(img, mm) {
            Err(e) => Err(e),
            Ok(rds) => match spec_head_ds_obj(img, mm, rds) {
                Err(e) => Err(e),
                Ok(hds) => match spec_fs_block(img, mm, hds) {
                    Err(e) => Err(e),
                    Ok(fsb) => match spec_root_obj(img, fsb.subrange(0, 512)) {
                        Err(e) => Err(e),
                        Ok(root) => Ok((fsb, root)),
                    },
                },
            },
        },
    }
}

/// Descending the directory tree segment by segment from dnode image
/// `dn`: each node looked into must be a directory whose first block
/// pointer leads to a micro-ZAP holding the segment.
pub open spec fn spec_walk(
    img: Seq<u8>,
    fsm: Seq<u8>,
    dn: Seq<u8>,
    segs: Seq<Seq<u8>>,
    i: int,
) -> Result<Seq<u8>, ZfsError>
    decreases segs.len() - i,
{
    if i < 0 || i >= segs.len() {
        Ok(dn)
    } else if dn[0] != OBJ_TYPE_DIR {
        Err(ZfsError::NotADirectory)
    } else {
        match spec_read_block(img, dn.subrange(64, 192)) {
            Err(e) => Err(e),
            Ok(zb) => {
                if zb.len() < 64 {
                    Err(ZfsError::Malformed)
                } else if !mzap_is_micro(zb) {
                    Err(ZfsError::Unsupported)
                } else {
                    match spec_mzap_lookup(zb, segs[i], 0) {
                        None => Err(ZfsError::NotFound(i as usize)),
                        Some(child) => match spec_resolve(img, fsm, child) {
                            Err(e) => Err(e),
                            Ok(dn2) => spec_walk(img, fsm, dn2, segs, i + 1),
                        },
                    }
                }
            },
        }
    }
}

/// Resolving the root directory dnode and walking the segments from it.
pub open spec fn spec_locate(img: Seq<u8>, fsm: Seq<u8>, root: u64, segs: Seq<Seq<u8>>) -> Result<
    Seq<u8>,
    ZfsError,
> {
    match spec_resolve(img, fsm, root) {
        Err(e) => Err(e),
        Ok(rd) => spec_walk(img, fsm, rd, segs, 0),
    }
}

/// Listing a path: the terminal dnode must be a directory; the listing
/// is the name sequence of its micro-ZAP.
pub open spec fn spec_ls(img: Seq<u8>, fsm: Seq<u8>, root: u64, path: Seq<u8>) -> Result<
    Seq<Seq<u8>>,
    ZfsError,
> {
    match spec_locate(img, fsm, root, spec_segments(path)) {
        Err(e) => Err(e),
        Ok(dn) => if dn[0] != OBJ_TYPE_DIR {
            Err(ZfsError::NotADirectory)
        } else {
            match spec_read_block(img, dn.subrange(64, 192)) {
                Err(e) => Err(e),
                Ok(zb) => if zb.len() < 64 {
                    Err(ZfsError::Malformed)
                } else if !mzap_is_micro(zb) {
                    Err(ZfsError::Unsupported)
                } else {
                    Ok(spec_mzap_names(zb, 0))
                },
            }
        },
    }
}

/// Reading a path: the terminal dnode must be a plain file; the result
/// is its first block's bytes up to the first NUL.
pub open spec fn spec_read_file(img: Seq<u8>, fsm: Seq<u8>, root: u64, path: Seq<u8>) -> Result<
    Seq<u8>,
    ZfsError,
> {
    match spec_locate(img, fsm, root, spec_segments(path)) {
        Err(e) => Err(e),
        Ok(dn) => if dn[0] != OBJ_TYPE_FILE {
            Err(ZfsError::NotAFile)
        } else {
            match spec_read_block(img, dn.subrange(64, 192)) {
                Err(e) => Err(e),
                Ok(data) => Ok(nul_trunc(data)),
            }
        },
    }
}

/// An open reader: the backing image, the active uberblock and the
/// cached filesystem object set and root directory object.
pub struct ZFS {
    pub helper: ZfsHelper,
    pub uberblock: Uberblock,
    pub fs_objset: ObjectSetPhys,
    pub master_node: DNodePhys,
    pub root: u64,
}

impl ZFS {
    /// The meta dnode image of the filesystem object set, as `spec_open`
    /// derives it from the image.
    pub open spec fn fs_meta(self) -> Seq<u8> {
        spec_open(self.helper.img()).unwrap().0.subrange(0, 512)
    }

    /// The root directory object, in spec form.
    pub open spec fn spec_root(self) -> u64 {
        self.root
    }

    /// The reader is the faithful result of opening its image: the open
    /// chain succeeds, the cached meta dnode and root object are the
    /// chain's results, and the uberblock is the winning slot's.
    pub open spec fn wf(self) -> bool {
        match spec_open(self.helper.img()) {
            Ok(pair) => {
                &&& dnode_matches(self.fs_objset.meta_dnode, pair.0.subrange(0, 512))
                &&& self.root == pair.1
                &&& best_slot_upto(self.helper.img(), 128) >= 0
                &&& ub_matches(
                    self.uberblock,
                    slot_bytes(self.helper.img(), best_slot_upto(self.helper.img(), 128)),
                )
            },
            Err(_) => false,
        }
    }

    /// The active uberblock, for diagnostics.
    pub fn uberblock(&self) -> (r: Uberblock)
        ensures
            r == self.uberblock,
    {
        self.uberblock
    }

    /// Opens a pool image: scans the uberblock ring and follows the DSL
    /// chain down to the filesystem object set and its root directory.
    pub fn new(disk: Vec<u8>) -> (r: Result<ZFS, ZfsError>)
        ensures
            match spec_open(disk@) {
                Ok(pair) => r is Ok && {
                    let z = r.unwrap();
                    &&& z.wf()
                    &&& z.helper.img() == disk@
                    &&& z.spec_root() == pair.1
                    &&& z.fs_meta() == pair.0.subrange(0, 512)
                    &&& ub_matches(z.uberblock, slot_bytes(disk@, best_slot_upto(disk@, 128)))
                },
                Err(e) => r matches Err(e2) && e2 == e,
            },
    {
        let helper = ZfsHelper::new(disk);
        let ghost img = helper.img();
        let uberblock = match helper.uber() {
            Some(u) => u,
            None => {
                return Err(ZfsError::NoValidUberblock);
            },
        };
        let mos = match helper.read_block(&uberblock.rootbp) {
            Ok(b) => b,
            Err(e) => {
                return Err(e);
            },
        };
        let mos_os = match ObjectSetPhys::from_bytes(mos.as_slice()) {
            Some(o) => o,
            None => {
                return Err(ZfsError::Malformed);
            },
        };
        let ghost mm = mos@.subrange(0, 512);
        proof {
            assert(spec_mos_meta(img) == Ok::<Seq<u8>, ZfsError>(mm));
        }
        let dnode1 = match read_dnode(&helper, &mos_os.meta_dnode, 1) {
            Ok(d) => d,
            Err(e) => {
                return Err(e);
            },
        };
        let ghost d1b = spec_resolve(img, mm, 1).unwrap();
        let bp1 = dnode1.get_blockptr(0);
        proof {
            assert(dnode1.tail@.subrange(0, 128) =~= d1b.subrange(64, 192));
        }
        let zb = match helper.read_block(&bp1) {
            Ok(b) => b,
            Err(e) => {
                return Err(e);
            },
        };
        let zw = match MZapWrapper::from_bytes(zb.as_slice()) {
            Some(w) => w,
            None => {
                return Err(ZfsError::Malformed);
            },
        };
        if read_u64(zb.as_slice(), 0) != ZBT_MICRO {
            return Err(ZfsError::Unsupported);
        }
        if zw.chunks.len() < 1 {
            return Err(ZfsError::Malformed);
        }
        let root_ds_obj = zw.chunks[0].value;
        proof {
            lemma_le64_sub(zb@, 64, 64, 0);
            assert(zb@.subrange(64, 128) =~= zb@.subrange(64 + 64 * 0int, 128 + 64 * 0int));
            assert(spec_root_ds_obj(img, mm) == Ok::<u64, ZfsError>(root_ds_obj));
        }
        let root_ds_dnode = match read_dnode(&helper, &mos_os.meta_dnode, root_ds_obj) {
            Ok(d) => d,
            Err(e) => {
                return Err(e);
            },
        };
        if root_ds_dnode.nblkptr > 3 {
            return Err(ZfsError::Malformed);
        }
        let ghost rdb = spec_resolve(img, mm, root_ds_obj).unwrap();
        let dsl_dir = match DslDirPhys::from_bytes(root_ds_dnode.get_bonus()) {
            Some(d) => d,
            None => {
                return Err(ZfsError::Malformed);
            },
        };
        proof {
            assert(root_ds_dnode.tail@.subrange(128 * root_ds_dnode.nblkptr as int, 448)
                =~= spec_bonus(rdb));
            lemma_le64_sub(rdb, 64 + 128 * (rdb[3] as int), 448 - 128 * (rdb[3] as int), 8);
            assert(spec_head_ds_obj(img, mm, root_ds_obj) == Ok::<u64, ZfsError>(
                dsl_dir.head_dataset_obj,
            ));
        }
        let head_dnode = match read_dnode(&helper, &mos_os.meta_dnode, dsl_dir.head_dataset_obj) {
            Ok(d) => d,
            Err(e) => {
                return Err(e);
            },
        };
        if head_dnode.nblkptr > 3 {
            return Err(ZfsError::Malformed);
        }
        let ghost hdb = spec_resolve(img, mm, dsl_dir.head_dataset_obj).unwrap();
        let bonus2 = head_dnode.get_bonus();
        proof {
            assert(head_dnode.tail@.subrange(128 * head_dnode.nblkptr as int, 448) =~= spec_bonus(
                hdb,
            ));
        }
        let dsl_ds = match DslDatasetPhys::from_bytes(bonus2) {
            Some(d) => d,
            None => {
                return Err(ZfsError::Malformed);
            },
        };
        let fsb = match helper.read_block(&dsl_ds.bp) {
            Ok(b) => b,
            Err(e) => {
                return Err(e);
            },
        };
        let fs_os = match ObjectSetPhys::from_bytes(fsb.as_slice()) {
            Some(o) => o,
            None => {
                return Err(ZfsError::Malformed);
            },
        };
        let ghost fsm = fsb@.subrange(0, 512);
        proof {
            assert(spec_fs_block(img, mm, dsl_dir.head_dataset_obj) == Ok::<Seq<u8>, ZfsError>(
                fsb@,
            ));
        }
        let master_node = match read_dnode(&helper, &fs_os.meta_dnode, 1) {
            Ok(d) => d,
            Err(e) => {
                return Err(e);
            },
        };
        let ghost mdb = spec_resolve(img, fsm, 1).unwrap();
        let bpm = master_node.get_blockptr(0);
        proof {
            assert(master_node.tail@.subrange(0, 128) =~= mdb.subrange(64, 192));
        }
        let mzb = match helper.read_block(&bpm) {
            Ok(b) => b,
            Err(e) => {
                return Err(e);
            },
        };
        let mz = match MZapWrapper::from_bytes(mzb.as_slice()) {
            Some(w) => w,
            None => {
                return Err(ZfsError::Malformed);
            },
        };
        if read_u64(mzb.as_slice(), 0) != ZBT_MICRO {
            return Err(ZfsError::Unsupported);
        }
        let mut key: Vec<u8> = Vec::new();
        key.push(0x52);
        key.push(0x4F);
        key.push(0x4F);
        key.push(0x54);
        proof {
            assert(key@ =~= root_key());
        }
        let root = match mz.lookup(key.as_slice()) {
            Some(v) => v,
            None => {
                proof {
                    lemma_lookup_bridge(mz, mzb@, root_key(), 0);
                }
                return Err(ZfsError::Malformed);
            },
        };
        proof {
            lemma_lookup_bridge(mz, mzb@, root_key(), 0);
            assert(spec_root_obj(img, fsm) == Ok::<u64, ZfsError>(root));
        }
        Ok(ZFS { helper, uberblock, fs_objset: fs_os, master_node, root })
    }

    /// Walks `segs` from the root directory and returns the terminal
    /// dnode.
    fn walk(&self, segs: &Vec<Vec<u8>>) -> (r: Result<DNodePhys, ZfsError>)
        requires
            self.wf(),
        ensures
            match spec_locate(
                self.helper.img(),
                self.fs_meta(),
                self.spec_root(),
                segs@.map_values(|v: Vec<u8>| v@),
            ) {
                Ok(d) => r is Ok && dnode_matches(r.unwrap(), d),
                Err(e) => r matches Err(e2) && e2 == e,
            },
    {
        let ghost img = self.helper.img();
        let ghost fsm = self.fs_meta();
        let ghost ss = segs@.map_values(|v: Vec<u8>| v@);
        let mut cur = match read_dnode(&self.helper, &self.fs_objset.meta_dnode, self.root) {
            Ok(d) => d,
            Err(e) => {
                return Err(e);
            },
        };
        let ghost mut curb = spec_resolve(img, fsm, self.root).unwrap();
        let n: usize = segs.len();
        let mut i: usize = 0;
        while i < n
            invariant
                i <= n,
                n == segs@.len(),
                self.wf(),
                img == self.helper.img(),
                fsm == self.fs_meta(),
                ss == segs@.map_values(|v: Vec<u8>| v@),
                dnode_matches(cur, curb),
                spec_walk(img, fsm, curb, ss, i as int) == spec_locate(
                    img,
                    fsm,
                    self.spec_root(),
                    ss,
                ),
            decreases n - i,
        {
            if cur.object_type != OBJ_TYPE_DIR {
                return Err(ZfsError::NotADirectory);
            }
            let bp = cur.get_blockptr(0);
            proof {
                assert(cur.tail@.subrange(0, 128) =~= curb.subrange(64, 192));
            }
            let zb = match self.helper.read_block(&bp) {
                Ok(b) => b,
                Err(e) => {
                    return Err(e);
                },
            };
            let zw = match MZapWrapper::from_bytes(zb.as_slice()) {
                Some(w) => w,
                None => {
                    return Err(ZfsError::Malformed);
                },
            };
            if read_u64(zb.as_slice(), 0) != ZBT_MICRO {
                return Err(ZfsError::Unsupported);
            }
            proof {
                lemma_lookup_bridge(zw, zb@, ss[i as int], 0);
                assert(segs@[i as int]@ == ss[i as int]);
            }
            let child = match zw.lookup(segs[i].as_slice()) {
                Some(v) => v,
                None => {
                    return Err(ZfsError::NotFound(i));
                },
            };
            cur = match read_dnode(&self.helper, &self.fs_objset.meta_dnode, child) {
                Ok(d) => d,
                Err(e) => {
                    return Err(e);
                },
            };
            proof {
                curb = spec_resolve(img, fsm, child).unwrap();
            }
            i = i + 1;
        }
        Ok(cur)
    }

    /// Lists the directory at `path`; the empty path lists the root.
    pub fn ls(&self, path: &[u8]) -> (r: Result<Vec<Vec<u8>>, ZfsError>)
        requires
            self.wf(),
        ensures
            match spec_ls(self.helper.img(), self.fs_meta(), self.spec_root(), path@) {
                Ok(names) => r is Ok && r.unwrap()@.map_values(|v: Vec<u8>| v@) == names,
                Err(e) => r matches Err(e2) && e2 == e,
            },
    {
        let segs = split_path(path);
        let term = match self.walk(&segs) {
            Ok(d) => d,
            Err(e) => {
                return Err(e);
            },
        };
        let ghost tb = spec_locate(
            self.helper.img(),
            self.fs_meta(),
            self.spec_root(),
            spec_segments(path@),
        ).unwrap();
        if term.object_type != OBJ_TYPE_DIR {
            return Err(ZfsError::NotADirectory);
        }
        let bp = term.get_blockptr(0);
        proof {
            assert(term.tail@.subrange(0, 128) =~= tb.subrange(64, 192));
        }
        let zb = match self.helper.read_block(&bp) {
            Ok(b) => b,
            Err(e) => {
                return Err(e);
            },
        };
        let zw = match MZapWrapper::from_bytes(zb.as_slice()) {
            Some(w) => w,
            None => {
                return Err(ZfsError::Malformed);
            },
        };
        if read_u64(zb.as_slice(), 0) != ZBT_MICRO {
            return Err(ZfsError::Unsupported);
        }
        let names = zw.names();
        proof {
            lemma_names_bridge(zw, zb@, 0);
            assert(names@.map_values(|v: Vec<u8>| v@) =~= spec_mzap_names(zb@, 0));
        }
        Ok(names)
    }

    /// Reads the file at `path`: its first block's bytes up to the
    /// first NUL.
    pub fn read_file(&self, path: &[u8]) -> (r: Result<Vec<u8>, ZfsError>)
        requires
            self.wf(),
        ensures
            match spec_read_file(self.helper.img(), self.fs_meta(), self.spec_root(), path@) {
                Ok(data) => r is Ok && r.unwrap()@ == data,
                Err(e) => r matches Err(e2) && e2 == e,
            },
    {
        let segs = split_path(path);
        let term = match self.walk(&segs) {
            Ok(d) => d,
            Err(e) => {
                return Err(e);
            },
        };
        let ghost tb = spec_locate(
            self.helper.img(),
            self.fs_meta(),
            self.spec_root(),
            spec_segments(path@),
        ).unwrap();
        if term.object_type != OBJ_TYPE_FILE {
            return Err(ZfsError::NotAFile);
        }
        let bp = term.get_blockptr(0);
        proof {
            assert(term.tail@.subrange(0, 128) =~= tb.subrange(64, 192));
        }
        let data = match self.helper.read_block(&bp) {
            Ok(b) => b,
            Err(e) => {
                return Err(e);
            },
        };
        let n: usize = data.len();
        let mut k: usize = 0;
        while k < n && *vstd::slice::slice_index_get(data.as_slice(), k) != 0
            invariant
                k <= n,
                n == data@.len(),
                forall|j: int| 0 <= j < k ==> data@[j] != 0,
            decreases n - k,
        {
            k = k + 1;
        }
        proof {
            lemma_nul_trunc_take(data@, k as int);
        }
        Ok(vstd::slice::slice_to_vec(vstd::slice::slice_subrange(data.as_slice(), 0, k)))
    }
}

} // verus!
