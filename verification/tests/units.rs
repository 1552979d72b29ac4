//! Unit tests for the decoders, the LZJB codec and the record types.

use zfs_reader::codec::{read_u16, read_u32, read_u64};
use zfs_reader::data::{Dir, File};
use zfs_reader::dnode::{DNodePhys, ObjectSetPhys};
use zfs_reader::dsl_dataset::DslDatasetPhys;
use zfs_reader::dsl_dir::DslDirPhys;
use zfs_reader::lzjb::{compress, decompress};
use zfs_reader::ondisk::{BlockPtr, DVAddr, Gang, Uberblock, VdevLabel};
use zfs_reader::path::split_path;
use zfs_reader::zap::MZapWrapper;
use zfs_reader::ZfsError;

#[test]
fn codec_reads_little_endian() {
    let b = [0x01u8, 0x02, 0x03, 0x04, 0x05, 0x06, 0x07, 0x08, 0x09];
    assert_eq!(read_u16(&b, 0), 0x0201);
    assert_eq!(read_u32(&b, 1), 0x05040302);
    assert_eq!(read_u64(&b, 1), 0x0908070605040302);
}

#[test]
fn dva_sector_is_biased_and_asize_positive() {
    let d = DVAddr { vdev: 0xAA_0000_12, offset: 0x1000 };
    assert_eq!(d.sector(), 0x1000 + 0x2000);
    assert_eq!(d.offset(), 0x1000);
    assert_eq!(d.asize(), 0x000012 + 1);
    assert!(!d.gang());
    let g = DVAddr { vdev: 0, offset: (1u64 << 63) | 7 };
    assert!(g.gang());
    assert_eq!(g.offset(), 7);
    assert_eq!(g.sector(), 7 + 0x2000);
    // Even the zero DVA stays within the invariant bounds.
    let z = DVAddr { vdev: 0, offset: 0 };
    assert!(z.sector() >= 0x2000);
    assert!(z.asize() >= 1);
}

#[test]
fn blockptr_unpacks_flags() {
    let f: u64 = (3u64 << 56) | (0x13u64 << 48) | (7u64 << 40) | (2u64 << 32) | (4u64 << 16) | 9;
    let bp = BlockPtr {
        dvas: [DVAddr { vdev: 0, offset: 0 }; 3],
        flags_size: f,
        birth_txg: 11,
        fill_count: 1,
        checksum: [0; 4],
    };
    assert_eq!(bp.level(), 3);
    assert_eq!(bp.object_type(), 0x13);
    assert_eq!(bp.checksum(), 7);
    assert_eq!(bp.compression(), 2);
    assert_eq!(bp.psize(), 5);
    assert_eq!(bp.lsize(), 10);
}

#[test]
fn blockptr_sizes_respect_compression() {
    // Compression off: logical and physical sizes coincide.
    let off = BlockPtr {
        dvas: [DVAddr { vdev: 0, offset: 0 }; 3],
        flags_size: (2u64 << 32) | (3 << 16) | 3,
        birth_txg: 0,
        fill_count: 0,
        checksum: [0; 4],
    };
    assert_eq!(off.compression(), 2);
    assert_eq!(off.lsize(), off.psize());
    // LZJB: the logical size is at least the physical size.
    let packed = BlockPtr { flags_size: (1u64 << 32) | (1 << 16) | 7, ..off };
    assert_eq!(packed.compression(), 1);
    assert!(packed.lsize() >= packed.psize());
    assert_eq!(packed.psize(), 2);
    assert_eq!(packed.lsize(), 8);
}

#[test]
fn blockptr_round_trips_through_bytes() {
    let mut raw = vec![0u8; 128];
    for (i, byte) in raw.iter_mut().enumerate() {
        *byte = (i * 7 % 251) as u8;
    }
    // Zero the padding words, which decoding does not keep.
    for b in raw[56..80].iter_mut() {
        *b = 0;
    }
    let bp = BlockPtr::from_bytes(&raw).unwrap();
    assert_eq!(bp.to_bytes(), raw);
    assert!(BlockPtr::from_bytes(&raw[..127]).is_none());

    let made = BlockPtr {
        dvas: [
            DVAddr { vdev: 1, offset: 2 },
            DVAddr { vdev: 3, offset: 4 },
            DVAddr { vdev: 5, offset: 6 },
        ],
        flags_size: 0xABCD_EF01_2345_6789,
        birth_txg: 77,
        fill_count: 88,
        checksum: [9, 10, 11, 12],
    };
    let enc = made.to_bytes();
    let back = BlockPtr::from_bytes(&enc).unwrap();
    assert_eq!(back.dvas[2].offset, 6);
    assert_eq!(back.flags_size, made.flags_size);
    assert_eq!(back.birth_txg, 77);
    assert_eq!(back.fill_count, 88);
    assert_eq!(back.checksum, [9, 10, 11, 12]);
}

#[test]
fn uberblock_round_trips_through_bytes() {
    let mut raw = vec![0u8; 168];
    raw[0..8].copy_from_slice(&0x00bab10cu64.to_le_bytes());
    raw[8..16].copy_from_slice(&21u64.to_le_bytes());
    raw[16..24].copy_from_slice(&900u64.to_le_bytes());
    raw[24..32].copy_from_slice(&0xFEEDu64.to_le_bytes());
    raw[32..40].copy_from_slice(&123456u64.to_le_bytes());
    raw[40 + 48..40 + 56].copy_from_slice(&((2u64 << 32) | 1).to_le_bytes());
    let u = Uberblock::from_bytes(&raw).unwrap();
    assert_eq!(u.magic, 0x00bab10c);
    assert_eq!(u.version, 21);
    assert_eq!(u.txg, 900);
    assert_eq!(u.guid_sum, 0xFEED);
    assert_eq!(u.timestamp, 123456);
    assert_eq!(u.rootbp.compression(), 2);
    assert_eq!(u.rootbp.lsize(), 2);
    assert_eq!(u.to_bytes(), raw);

    // A fully byte-swapped magic is accepted too: the image bytes are
    // those of 0x00bab10c stored big-endian.
    raw[0..8].copy_from_slice(&0x00bab10cu64.to_be_bytes());
    assert_eq!(
        Uberblock::from_bytes(&raw).unwrap().magic,
        0x0cb1ba00_0000_0000
    );
    // The 32-bit-style swap matches neither byte order and is rejected.
    raw[0..8].copy_from_slice(&0x0cb1ba00u64.to_le_bytes());
    assert!(Uberblock::from_bytes(&raw).is_none());

    // Wrong magic and short records decode to nothing.
    assert!(Uberblock::from_bytes(&raw[..167]).is_none());
    raw[0] = 0xFF;
    assert!(Uberblock::from_bytes(&raw).is_none());
}

#[test]
fn uberblock_magic_constants() {
    assert_eq!(Uberblock::magic_big(), 0x00bab10c);
    assert_eq!(Uberblock::magic_little(), 0x0cb1ba00_0000_0000);
    assert_eq!(Uberblock::magic_little(), u64::swap_bytes(Uberblock::magic_big()));
    assert_eq!(Gang::magic(), 0x117a0cb17ada1002);
}

#[test]
fn lzjb_compress_round_trips() {
    let cases: Vec<Vec<u8>> = vec![
        Vec::new(),
        b"a".to_vec(),
        b"hello world, hello world".to_vec(),
        (0..=255u8).collect(),
        vec![7u8; 1000],
        (0..65536usize).map(|i| (i * 31 % 256) as u8).collect(),
    ];
    for input in cases {
        let packed = compress(&input);
        let mut out = vec![0u8; input.len()];
        decompress(&packed, &mut out).unwrap();
        assert_eq!(out, input);
    }
}

#[test]
fn lzjb_reference_stream_with_overlap() {
    // Two literals, then a length-8 match at distance 2 (a run), then a
    // literal newline.
    let src = [0x04u8, 0x61, 0x62, 0x14, 0x02, 0x0A];
    let mut out = vec![0u8; 16];
    decompress(&src, &mut out).unwrap();
    assert_eq!(&out[..11], b"ababababab\n");
    assert!(out[11..].iter().all(|b| *b == 0));
}

#[test]
fn lzjb_match_at_distance_one_repeats_byte() {
    // 'x' then a match of length 10 at distance 1.
    let src = [0x02u8, 0x78, 0x1C, 0x01];
    let mut out = vec![0u8; 11];
    decompress(&src, &mut out).unwrap();
    assert_eq!(out, vec![0x78u8; 11]);
}

#[test]
fn lzjb_stops_when_output_full() {
    let src = [0x00u8, 1, 2, 3, 4, 5, 6, 7, 8];
    let mut out = vec![0u8; 3];
    decompress(&src, &mut out).unwrap();
    assert_eq!(out, vec![1, 2, 3]);
}

#[test]
fn lzjb_rejects_backreference_before_start() {
    let src = [0x01u8, 0x00, 0x05];
    let mut out = vec![0u8; 8];
    assert!(matches!(decompress(&src, &mut out), Err(ZfsError::CorruptCompression)));
}

#[test]
fn mzap_lookup_and_listing() {
    let mut b = vec![0u8; 64 + 64 * 4];
    b[0..8].copy_from_slice(&0x8000_0000_0000_0003u64.to_le_bytes());
    for (i, (name, value)) in [(b"alpha".as_slice(), 10u64), (b"beta".as_slice(), 20)]
        .iter()
        .enumerate()
    {
        let c = 64 + 64 * i;
        b[c..c + 8].copy_from_slice(&value.to_le_bytes());
        b[c + 14..c + 14 + name.len()].copy_from_slice(name);
    }
    // Chunk 2 has an empty name and ends the directory; chunk 3 is
    // behind it and must be ignored.
    let c3 = 64 + 64 * 3;
    b[c3..c3 + 8].copy_from_slice(&99u64.to_le_bytes());
    b[c3 + 14] = b'z';

    let w = MZapWrapper::from_bytes(&b).unwrap();
    assert_eq!(w.chunks.len(), 4);
    assert_eq!(w.lookup(b"alpha"), Some(10));
    assert_eq!(w.lookup(b"beta"), Some(20));
    assert_eq!(w.lookup(b"gamma"), None);
    assert_eq!(w.lookup(b"z"), None);
    let names = w.names();
    assert_eq!(names, vec![b"alpha".to_vec(), b"beta".to_vec()]);
    assert!(MZapWrapper::from_bytes(&b[..63]).is_none());
}

#[test]
fn dnode_parses_fixed_offsets() {
    let mut b = vec![0u8; 512];
    b[0] = 0x13;
    b[1] = 14;
    b[2] = 2;
    b[3] = 1;
    b[4] = 44;
    b[8..10].copy_from_slice(&16u16.to_le_bytes());
    b[10..12].copy_from_slice(&320u16.to_le_bytes());
    b[16..24].copy_from_slice(&5u64.to_le_bytes());
    b[24..32].copy_from_slice(&4096u64.to_le_bytes());
    b[64 + 48..64 + 56].copy_from_slice(&((2u64 << 32) | (1 << 16) | 1).to_le_bytes());
    b[64 + 128] = 0xEE; // first bonus byte
    let d = DNodePhys::from_bytes(&b).unwrap();
    assert_eq!(d.object_type, 0x13);
    assert_eq!(d.indblkshift, 14);
    assert_eq!(d.nlevels, 2);
    assert_eq!(d.nblkptr, 1);
    assert_eq!(d.bonus_type, 44);
    assert_eq!(d.data_blk_sz_sec, 16);
    assert_eq!(d.bonus_len, 320);
    assert_eq!(d.maxblkid, 5);
    assert_eq!(d.used, 4096);
    let bp = d.get_blockptr(0);
    assert_eq!(bp.compression(), 2);
    assert_eq!(bp.psize(), 2);
    assert_eq!(bp.lsize(), 2);
    let bonus = d.get_bonus();
    assert_eq!(bonus.len(), 448 - 128);
    assert_eq!(bonus[0], 0xEE);
    assert!(DNodePhys::from_bytes(&b[..511]).is_none());
}

#[test]
fn objset_parses_meta_dnode_and_type() {
    let mut b = vec![0u8; 1024];
    b[0] = 10;
    b[3] = 3;
    b[656..664].copy_from_slice(&2u64.to_le_bytes());
    let os = ObjectSetPhys::from_bytes(&b).unwrap();
    assert_eq!(os.meta_dnode.object_type, 10);
    assert_eq!(os.meta_dnode.nblkptr, 3);
    assert_eq!(os.os_type, 2);
    assert!(ObjectSetPhys::from_bytes(&b[..663]).is_none());
}

#[test]
fn dsl_records_read_fixed_offsets() {
    let mut b = vec![0u8; 256];
    b[0..8].copy_from_slice(&111u64.to_le_bytes());
    b[8..16].copy_from_slice(&222u64.to_le_bytes());
    let dir = DslDirPhys::from_bytes(&b).unwrap();
    assert_eq!(dir.creation_time, 111);
    assert_eq!(dir.head_dataset_obj, 222);
    assert!(DslDirPhys::from_bytes(&b[..15]).is_none());

    b[128 + 8..128 + 16].copy_from_slice(&77u64.to_le_bytes()); // bp dva0 offset
    let ds = DslDatasetPhys::from_bytes(&b).unwrap();
    assert_eq!(ds.dir_obj, 111);
    assert_eq!(ds.bp.dvas[0].offset, 77);
    assert!(DslDatasetPhys::from_bytes(&b[..255]).is_none());
}

#[test]
fn vdev_label_splits_regions() {
    let mut b = vec![0u8; 262144];
    b[0] = 1;
    b[8192] = 2;
    b[16384] = 3;
    b[131072] = 4;
    let l = VdevLabel::from_bytes(&b).unwrap();
    assert_eq!(l.blank.len(), 8192);
    assert_eq!(l.boot_header.len(), 8192);
    assert_eq!(l.nv_pairs.len(), 114688);
    assert_eq!(l.uberblocks.len(), 131072);
    assert_eq!(l.blank[0], 1);
    assert_eq!(l.boot_header[0], 2);
    assert_eq!(l.nv_pairs[0], 3);
    assert_eq!(l.uberblocks[0], 4);
    assert!(VdevLabel::from_bytes(&b[..262143]).is_none());
}

#[test]
fn paths_are_trimmed_and_split() {
    let empty: Vec<Vec<u8>> = Vec::new();
    assert_eq!(split_path(b""), empty);
    assert_eq!(split_path(b"///"), empty);
    assert_eq!(split_path(b"/etc"), vec![b"etc".to_vec()]);
    assert_eq!(split_path(b"etc/motd/"), vec![b"etc".to_vec(), b"motd".to_vec()]);
    assert_eq!(
        split_path(b"/a//b"),
        vec![b"a".to_vec(), Vec::new(), b"b".to_vec()]
    );
}

#[test]
fn record_nodes_decode_names_and_tables() {
    let mut fb = vec![0u8; 300];
    fb[0] = b'f';
    fb[257] = 9;
    fb[299] = 8;
    let f = File::from_bytes(&fb);
    assert_eq!(f.name.len(), 64);
    assert_eq!(f.name[0], b'f');
    assert_eq!(f.data.len(), 43);
    assert_eq!(f.data[0], 9);

    // One 256-byte header record closed by '#', then table bytes.
    let mut db = vec![0u8; 512];
    db[0] = b'd';
    db[255] = 35;
    db[256] = 0xAB;
    let d = Dir::from_bytes(&db);
    assert_eq!(d.name[0], b'd');
    assert_eq!(d.data.len(), 256);
    assert_eq!(d.data[0], 0xAB);
    let t = d.get_table();
    assert_eq!(t.bytes, d.data);

    // Without the marker nothing is skipped.
    let db2 = vec![0u8; 128];
    let d2 = Dir::from_bytes(&db2);
    assert_eq!(d2.data.len(), 128);
}

#[test]
fn resolver_descends_two_levels() {
    // A meta dnode whose first pointer is a level-1 indirect block;
    // object 3 lives in the second leaf (two dnodes per leaf).
    let mut img = vec![0u8; (0x2000 + 8) * 512];
    let base = 0x2000 * 512;
    let mut meta = vec![0u8; 512];
    meta[1] = 14; // indblkshift: fan-out 128
    meta[2] = 2;
    meta[3] = 1;
    meta[8..10].copy_from_slice(&2u16.to_le_bytes()); // two dnodes per leaf
    // level-1 pointer to the indirect block at relative sector 0
    meta[64 + 8..64 + 16].copy_from_slice(&0u64.to_le_bytes());
    meta[64..64 + 8].copy_from_slice(&1u64.to_le_bytes()); // asize 2
    meta[64 + 48..64 + 56]
        .copy_from_slice(&((1u64 << 56) | (2u64 << 32) | (1 << 16) | 1).to_le_bytes());
    // The indirect block: entry 1 (leaf id 1) points at rel sector 2.
    let e = base + 128;
    img[e..e + 8].copy_from_slice(&1u64.to_le_bytes()); // asize 2
    img[e + 8..e + 16].copy_from_slice(&2u64.to_le_bytes());
    img[e + 48..e + 56].copy_from_slice(&((2u64 << 32) | (1 << 16) | 1).to_le_bytes());
    // The leaf: dnode index 1 (object 3) with a recognisable type.
    img[base + 2 * 512 + 512] = 0x42;
    let meta_dn = DNodePhys::from_bytes(&meta).unwrap();
    let h = zfs_reader::device::ZfsHelper::new(img);
    let d = zfs_reader::objset::read_dnode(&h, &meta_dn, 3).unwrap();
    assert_eq!(d.object_type, 0x42);
    // An object whose indirect index leaves the materialised block is
    // missing.
    let r = zfs_reader::objset::read_dnode(&h, &meta_dn, 100);
    assert!(matches!(r, Err(ZfsError::ObjectMissing)));
}
