use me_fs_rs::err::MeError;
use me_fs_rs::fpt::{get_part_info, PartitionType};
use me_fs_rs::parse;

fn put_u32(buf: &mut Vec<u8>, off: usize, v: u32) {
    let b = v.to_le_bytes();
    for i in 0..4 {
        buf[off + i] = b[i];
    }
}

#[test]
fn classification_is_total_and_exact() {
    // "FTPR" as a big-endian name value.
    assert_eq!(get_part_info(0x46545052).0, PartitionType::Code);
    // "MFS\0"
    assert_eq!(get_part_info(0x4D465300).0, PartitionType::Data);
    // "AFSP" is recognized but classified as neither code nor data.
    assert_eq!(get_part_info(0x41465350).0, PartitionType::Other);
    // An unknown name.
    assert_eq!(get_part_info(0x12345678).0, PartitionType::Other);
    assert_eq!(get_part_info(0).0, PartitionType::Other);
}

#[test]
fn classification_covers_every_named_partition() {
    let code = [0x46545052u32, 0x46545550, 0x444C4D50, 0x4E465450, 0x524F4D42, 0x57434F44,
        0x4C4F434C, 0x49534843, 0x4654504D, 0x4D444D56];
    for n in code {
        assert_eq!(get_part_info(n).0, PartitionType::Code);
    }
    let data = [0x5053564Eu32, 0x49564250, 0x4D465300, 0x464C4F47, 0x55544F4B, 0x474C5554,
        0x45464653, 0x464F5644];
    for n in data {
        assert_eq!(get_part_info(n).0, PartitionType::Data);
    }
}

#[test]
fn minimal_fpt_parses_with_no_partitions() {
    // Prefix padding, then "$FPT" at 0x10 with zero entries.
    let mut img: Vec<u8> = vec![0; 0x400];
    let magic = b"$FPT";
    for i in 0..4 {
        img[0x10 + i] = magic[i];
    }
    let t = parse(&img).unwrap();
    assert_eq!(t.base, 0);
    assert_eq!(t.header.entries, 0);
    assert!(t.entries.is_empty());
    assert!(t.directories.is_empty());
    assert!(t.gen2dirs.is_empty());
    assert!(t.mfs_parts.is_empty());
    assert!(t.fit.is_err());
}

#[test]
fn no_fpt_anywhere_is_fatal() {
    let img: Vec<u8> = vec![0; 0x400];
    assert_eq!(parse(&img).unwrap_err(), MeError::NoFpt);
    let tiny: Vec<u8> = vec![0; 8];
    assert_eq!(parse(&tiny).unwrap_err(), MeError::NoFpt);
}

#[test]
fn unaligned_fpt_realigns_partition_base() {
    // A hit at 0x20 puts the record at 0x30; since 0x20 is not
    // page-aligned, the partition base becomes 0x30, and an entry offset
    // of 0x40 resolves to image offset 0x70.
    let mut img: Vec<u8> = vec![0; 0x400];
    let magic = b"$FPT";
    for i in 0..4 {
        img[0x30 + i] = magic[i];
    }
    put_u32(&mut img, 0x34, 1); // one entry
    // The entry table starts 32 bytes after the record.
    let e = 0x50;
    let name = b"FTPR";
    for i in 0..4 {
        img[e + i] = name[i];
    }
    put_u32(&mut img, e + 8, 0x40); // partition offset
    put_u32(&mut img, e + 12, 0x30); // partition size
    // The partition at 0x70 is a bare $CPD directory.
    let cpd = b"$CPD";
    for i in 0..4 {
        img[0x70 + i] = cpd[i];
    }
    let pn = b"FTPR";
    for i in 0..4 {
        img[0x7C + i] = pn[i];
    }
    let t = parse(&img).unwrap();
    assert_eq!(t.base, 0x30);
    assert_eq!(t.entries.len(), 1);
    assert_eq!(t.entries[0].offset, 0x40);
    assert_eq!(t.directories.len(), 1);
    assert_eq!(t.directories[0].offset, 0x70);
    assert_eq!(t.directories[0].name, b"FTPR".to_vec());
}

#[test]
fn aligned_fpt_keeps_scan_base() {
    // A hit at 0x1000 is page-aligned: the base stays at the scan
    // position and an entry offset of 0x40 resolves to 0x1040.
    let mut img: Vec<u8> = vec![0; 0x2000];
    let magic = b"$FPT";
    for i in 0..4 {
        img[0x1010 + i] = magic[i];
    }
    put_u32(&mut img, 0x1014, 1);
    let e = 0x1030;
    let name = b"FTPR";
    for i in 0..4 {
        img[e + i] = name[i];
    }
    put_u32(&mut img, e + 8, 0x40);
    put_u32(&mut img, e + 12, 0x30);
    let cpd = b"$CPD";
    for i in 0..4 {
        img[0x1040 + i] = cpd[i];
    }
    let t = parse(&img).unwrap();
    assert_eq!(t.base, 0x1000);
    assert_eq!(t.directories.len(), 1);
    assert_eq!(t.directories[0].offset, 0x1040);
}
