//! End-to-end tests over a small crafted pool image.

use zfs_reader::device::ZfsHelper;
use zfs_reader::ondisk::{BlockPtr, DVAddr};
use zfs_reader::zfs::ZFS;
use zfs_reader::ZfsError;

const SECTOR: usize = 512;
const BASE: u64 = 0x2000;

fn put(img: &mut Vec<u8>, off: usize, bytes: &[u8]) {
    img[off..off + bytes.len()].copy_from_slice(bytes);
}

fn put64(img: &mut Vec<u8>, off: usize, v: u64) {
    put(img, off, &v.to_le_bytes());
}

fn put16(img: &mut Vec<u8>, off: usize, v: u16) {
    put(img, off, &v.to_le_bytes());
}

/// Byte offset of relative data sector `s` (past labels and boot block).
fn rel(s: u64) -> usize {
    ((BASE + s) as usize) * SECTOR
}

fn flags(level: u64, otype: u64, comp: u64, psize: u64, lsize: u64) -> u64 {
    (level << 56) | (otype << 48) | (comp << 32) | ((psize - 1) << 16) | (lsize - 1)
}

/// Writes a block pointer at byte offset `off`: first DVA points at
/// relative sector `s` with `asize` sectors.
fn put_bp(img: &mut Vec<u8>, off: usize, s: u64, asize: u64, level: u64, comp: u64, psize: u64, lsize: u64) {
    put64(img, off, asize - 1); // dva0 vdev word
    put64(img, off + 8, s); // dva0 offset word
    put64(img, off + 48, flags(level, 10, comp, psize, lsize));
}

/// Writes a dnode header at byte offset `off`; its first block pointer
/// sits at `off + 64` and its bonus area at `off + 64 + 128 * nblkptr`.
fn put_dnode(img: &mut Vec<u8>, off: usize, otype: u8, nblkptr: u8, dbss: u16, bonus_len: u16) {
    img[off] = otype;
    img[off + 1] = 14; // indblkshift
    img[off + 2] = 1; // nlevels
    img[off + 3] = nblkptr;
    img[off + 4] = 0; // bonus type
    put16(img, off + 8, dbss);
    put16(img, off + 10, bonus_len);
}

const ZBT_MICRO: u64 = 0x8000_0000_0000_0003;

fn put_mzap(img: &mut Vec<u8>, off: usize, entries: &[(&[u8], u64)]) {
    put64(img, off, ZBT_MICRO);
    for (i, (name, value)) in entries.iter().enumerate() {
        let c = off + 64 + 64 * i;
        put64(img, c, *value);
        put(img, c + 14, name);
    }
}

fn put_uberblock(img: &mut Vec<u8>, slot: u64, txg: u64) {
    let off = ((256 + 2 * slot) as usize) * SECTOR;
    put64(img, off, 0x00bab10c); // magic
    put64(img, off + 8, 5000); // version
    put64(img, off + 16, txg);
    put64(img, off + 24, 0x1234); // guid sum
    put64(img, off + 32, 99); // timestamp
    put_bp(img, off + 40, 0, 2, 0, 2, 2, 2); // root bp -> MOS objset
}

/// Builds a pool with root entries {bin, etc, home}, /etc = {hosts,
/// motd} and /etc/motd holding "Welcome\n".  With `motd_lzjb` the motd
/// block is LZJB-compressed and expands to "ababababab\n".  `zap_type`
/// overrides the object directory's block type word; `motd_comp`
/// overrides the motd block's compression tag.
fn build_pool_with(motd_lzjb: bool, zap_type: u64, motd_comp: u64) -> Vec<u8> {
    let mut img = vec![0u8; rel(52)];

    put_uberblock(&mut img, 3, 42);
    put_uberblock(&mut img, 7, 17);
    // a slot with a bad magic is skipped
    put64(&mut img, (256 + 2 * 11) * SECTOR, 0xdeadbeef);

    // MOS object set at rel 0: meta dnode describing 16-dnode leaves.
    put_dnode(&mut img, rel(0), 10, 3, 16, 0);
    put_bp(&mut img, rel(0) + 64, 2, 16, 0, 2, 16, 16);
    put64(&mut img, rel(0) + 656, 1); // os type

    // MOS dnode leaf at rel 2.
    // Object 1: object directory, a micro-ZAP.
    put_dnode(&mut img, rel(2) + 512, 1, 1, 2, 0);
    put_bp(&mut img, rel(2) + 512 + 64, 18, 2, 0, 2, 2, 2);
    // Object 2: root DSL directory; head dataset is object 3.
    put_dnode(&mut img, rel(2) + 1024, 12, 1, 2, 256);
    put64(&mut img, rel(2) + 1024 + 64 + 128 + 8, 3);
    // Object 3: head dataset; its bp points at the fs object set.
    put_dnode(&mut img, rel(2) + 1536, 16, 1, 2, 320);
    put64(&mut img, rel(2) + 1536 + 64 + 128, 2); // dir obj
    put_bp(&mut img, rel(2) + 1536 + 64 + 128 + 128, 20, 2, 0, 2, 2, 2);

    // Object directory ZAP at rel 18.
    put_mzap(&mut img, rel(18), &[(b"root_dataset", 2)]);
    put64(&mut img, rel(18), zap_type);

    // Filesystem object set at rel 20.
    put_dnode(&mut img, rel(20), 10, 3, 16, 0);
    put_bp(&mut img, rel(20) + 64, 22, 16, 0, 2, 16, 16);
    put64(&mut img, rel(20) + 656, 2);

    // FS dnode leaf at rel 22.
    // Object 1: master node with the ROOT entry.
    put_dnode(&mut img, rel(22) + 512, 21, 1, 2, 0);
    put_bp(&mut img, rel(22) + 512 + 64, 38, 2, 0, 2, 2, 2);
    // Object 4: root directory {bin, etc, home}.
    put_dnode(&mut img, rel(22) + 4 * 512, 0x14, 1, 2, 0);
    put_bp(&mut img, rel(22) + 4 * 512 + 64, 40, 2, 0, 2, 2, 2);
    // Object 5: /bin (empty).
    put_dnode(&mut img, rel(22) + 5 * 512, 0x14, 1, 2, 0);
    put_bp(&mut img, rel(22) + 5 * 512 + 64, 42, 2, 0, 2, 2, 2);
    // Object 6: /etc {hosts, motd}.
    put_dnode(&mut img, rel(22) + 6 * 512, 0x14, 1, 2, 0);
    put_bp(&mut img, rel(22) + 6 * 512 + 64, 44, 2, 0, 2, 2, 2);
    // Object 7: /home (empty).
    put_dnode(&mut img, rel(22) + 7 * 512, 0x14, 1, 2, 0);
    put_bp(&mut img, rel(22) + 7 * 512 + 64, 46, 2, 0, 2, 2, 2);
    // Object 8: /etc/hosts.
    put_dnode(&mut img, rel(22) + 8 * 512, 0x13, 1, 2, 0);
    put_bp(&mut img, rel(22) + 8 * 512 + 64, 48, 2, 0, 2, 2, 2);
    // Object 9: /etc/motd.
    put_dnode(&mut img, rel(22) + 9 * 512, 0x13, 1, 2, 0);
    if motd_lzjb {
        put_bp(&mut img, rel(22) + 9 * 512 + 64, 50, 1, 0, 1, 1, 2);
    } else {
        put_bp(&mut img, rel(22) + 9 * 512 + 64, 50, 2, 0, motd_comp, 2, 2);
    }

    put_mzap(&mut img, rel(38), &[(b"ROOT", 4)]);
    put_mzap(&mut img, rel(40), &[(b"bin", 5), (b"etc", 6), (b"home", 7)]);
    put_mzap(&mut img, rel(42), &[]);
    put_mzap(&mut img, rel(44), &[(b"hosts", 8), (b"motd", 9)]);
    put_mzap(&mut img, rel(46), &[]);
    put(&mut img, rel(48), b"127.0.0.1 localhost\n");
    if motd_lzjb {
        // copymap 0x04: literals 'a' 'b', then a match of length 8 at
        // distance 2 (0x14 0x02 big-endian), then a literal newline.
        put(&mut img, rel(50), &[0x04, 0x61, 0x62, 0x14, 0x02, 0x0A]);
    } else {
        put(&mut img, rel(50), b"Welcome\n");
    }
    img
}

fn build_pool() -> Vec<u8> {
    build_pool_with(false, ZBT_MICRO, 2)
}

#[test]
fn open_returns_highest_txg_uberblock() {
    let z = ZFS::new(build_pool()).unwrap();
    let u = z.uberblock();
    assert_eq!(u.txg, 42);
    assert_eq!(u.magic, 0x00bab10c);
    assert_eq!(u.version, 5000);
    assert_eq!(u.timestamp, 99);
}

#[test]
fn ls_root_lists_all_entries() {
    let z = ZFS::new(build_pool()).unwrap();
    let names = z.ls(b"/").unwrap();
    assert_eq!(names, vec![b"bin".to_vec(), b"etc".to_vec(), b"home".to_vec()]);
    let names2 = z.ls(b"").unwrap();
    assert_eq!(names2, vec![b"bin".to_vec(), b"etc".to_vec(), b"home".to_vec()]);
}

#[test]
fn ls_etc_lists_both_entries() {
    let z = ZFS::new(build_pool()).unwrap();
    let names = z.ls(b"/etc").unwrap();
    assert_eq!(names, vec![b"hosts".to_vec(), b"motd".to_vec()]);
    let names2 = z.ls(b"etc/").unwrap();
    assert_eq!(names2, vec![b"hosts".to_vec(), b"motd".to_vec()]);
}

#[test]
fn read_file_truncates_at_nul() {
    let z = ZFS::new(build_pool()).unwrap();
    let data = z.read_file(b"/etc/motd").unwrap();
    assert_eq!(data, b"Welcome\n".to_vec());
    let hosts = z.read_file(b"/etc/hosts").unwrap();
    assert_eq!(hosts, b"127.0.0.1 localhost\n".to_vec());
}

#[test]
fn read_file_missing_yields_not_found() {
    let z = ZFS::new(build_pool()).unwrap();
    assert!(matches!(z.read_file(b"/missing"), Err(ZfsError::NotFound(0))));
    assert!(matches!(z.ls(b"/etc/nothing"), Err(ZfsError::NotFound(1))));
}

#[test]
fn read_file_lzjb_block_decompresses() {
    let z = ZFS::new(build_pool_with(true, ZBT_MICRO, 2)).unwrap();
    let data = z.read_file(b"/etc/motd").unwrap();
    assert_eq!(data, b"ababababab\n".to_vec());

    // Bit-exact against the decompressor run by hand on the same stream.
    let mut buf = vec![0u8; 2 * SECTOR];
    zfs_reader::lzjb::decompress(&[0x04, 0x61, 0x62, 0x14, 0x02, 0x0A], &mut buf).unwrap();
    let trunc: Vec<u8> = buf.iter().copied().take_while(|b| *b != 0).collect();
    assert_eq!(data, trunc);
}

#[test]
fn read_file_on_directory_fails() {
    let z = ZFS::new(build_pool()).unwrap();
    assert!(matches!(z.read_file(b"/etc"), Err(ZfsError::NotAFile)));
    assert!(matches!(z.read_file(b"/"), Err(ZfsError::NotAFile)));
}

#[test]
fn ls_on_file_fails() {
    let z = ZFS::new(build_pool()).unwrap();
    assert!(matches!(z.ls(b"/etc/motd"), Err(ZfsError::NotADirectory)));
    assert!(matches!(z.ls(b"/etc/motd/x"), Err(ZfsError::NotADirectory)));
}

#[test]
fn unknown_compression_is_unsupported() {
    let z = ZFS::new(build_pool_with(false, ZBT_MICRO, 5)).unwrap();
    assert!(matches!(z.read_file(b"/etc/motd"), Err(ZfsError::Unsupported)));
}

#[test]
fn fat_zap_is_unsupported() {
    // A non-micro type word on the object directory stops the open.
    let r = ZFS::new(build_pool_with(false, 0x8000_0000_0000_0001, 2));
    assert!(matches!(r, Err(ZfsError::Unsupported)));
}

#[test]
fn empty_image_has_no_valid_uberblock() {
    assert!(matches!(ZFS::new(vec![0u8; 4096]), Err(ZfsError::NoValidUberblock)));
    let h = ZfsHelper::new(vec![0u8; rel(0)]);
    assert!(h.uber().is_none());
}

#[test]
fn uberblock_scan_selects_maximum_txg() {
    // A synthetic ring: valid slots 0, 40, 99, 100 with txgs 7, 812, 811, 3.
    let mut img = vec![0u8; (256 + 2 * 128) * SECTOR];
    for (slot, txg) in [(0u64, 7u64), (40, 812), (99, 811), (100, 3)] {
        let off = ((256 + 2 * slot) as usize) * SECTOR;
        put64(&mut img, off, 0x00bab10c);
        put64(&mut img, off + 16, txg);
    }
    let h = ZfsHelper::new(img);
    let u = h.uber().unwrap();
    assert_eq!(u.txg, 812);
}

#[test]
fn uberblock_scan_tie_prefers_later_slot() {
    let mut img = vec![0u8; (256 + 2 * 128) * SECTOR];
    for (slot, txg, guid) in [(5u64, 50u64, 1u64), (90, 50, 2)] {
        let off = ((256 + 2 * slot) as usize) * SECTOR;
        put64(&mut img, off, 0x00bab10c);
        put64(&mut img, off + 16, txg);
        put64(&mut img, off + 24, guid);
    }
    let h = ZfsHelper::new(img);
    let u = h.uber().unwrap();
    assert_eq!(u.guid_sum, 2);
}

#[test]
fn uberblock_scan_accepts_swapped_magic() {
    // One slot stores the canonical magic in the opposite byte order.
    let mut img = vec![0u8; (256 + 2 * 128) * SECTOR];
    let off = (256 + 2 * 9) * SECTOR;
    put(&mut img, off, &0x00bab10cu64.to_be_bytes());
    put64(&mut img, off + 16, 33);
    let h = ZfsHelper::new(img);
    let u = h.uber().unwrap();
    assert_eq!(u.magic, 0x0cb1ba00_0000_0000);
    assert_eq!(u.magic, u64::swap_bytes(0x00bab10c));
    assert_eq!(u.txg, 33);
}

#[test]
fn gang_blocks_are_rejected() {
    let h = ZfsHelper::new(vec![0u8; rel(4)]);
    let mut bp = BlockPtr {
        dvas: [DVAddr { vdev: 0, offset: 1u64 << 63 }; 3],
        flags_size: flags(0, 10, 2, 1, 1),
        birth_txg: 0,
        fill_count: 0,
        checksum: [0; 4],
    };
    assert!(matches!(h.read_block(&bp), Err(ZfsError::Unsupported)));
    bp.dvas[0].offset = 0;
    assert!(h.read_block(&bp).is_ok());
}

#[test]
fn out_of_range_read_is_io_error() {
    let h = ZfsHelper::new(vec![0u8; 1024]);
    assert!(matches!(h.read(0, 3), Err(ZfsError::IoError)));
    assert!(h.read(0, 2).is_ok());
    let bp = BlockPtr {
        dvas: [DVAddr { vdev: 0, offset: 0 }; 3],
        flags_size: flags(0, 10, 2, 1, 1),
        birth_txg: 0,
        fill_count: 0,
        checksum: [0; 4],
    };
    // The DVA is biased past the label region, beyond this tiny image.
    assert!(matches!(h.read_block(&bp), Err(ZfsError::IoError)));
}

#[test]
fn short_mos_block_is_malformed() {
    let mut img = vec![0u8; rel(4)];
    put_uberblock(&mut img, 0, 5);
    // Rewrite the root bp to read a single sector: too short for an
    // object set header.
    put_bp(&mut img, 256 * SECTOR + 40, 0, 1, 0, 2, 1, 1);
    assert!(matches!(ZFS::new(img), Err(ZfsError::Malformed)));
}

#[test]
fn corrupt_compressed_block_is_reported() {
    let mut img = build_pool_with(true, ZBT_MICRO, 2);
    // A back-reference at the very start of the stream predates the
    // output: copymap 0x01 then distance 5.
    put(&mut img, rel(50), &[0x01, 0x00, 0x05, 0, 0, 0]);
    let z = ZFS::new(img).unwrap();
    assert!(matches!(z.read_file(b"/etc/motd"), Err(ZfsError::CorruptCompression)));
}
