use me_fs_rs::dir::gen2::{Compression, Directory};
use me_fs_rs::dir::gen3::CodePartitionDirectory;
use me_fs_rs::dir::man::{Manifest, MANIFEST_SIZE};
use me_fs_rs::err::MeError;

fn put_u32(buf: &mut Vec<u8>, off: usize, v: u32) {
    let b = v.to_le_bytes();
    for i in 0..4 {
        buf[off + i] = b[i];
    }
}

fn put_u16(buf: &mut Vec<u8>, off: usize, v: u16) {
    let b = v.to_le_bytes();
    for i in 0..2 {
        buf[off + i] = b[i];
    }
}

/// Lays a minimal `$MN2` manifest down at `off`.
fn put_manifest(buf: &mut Vec<u8>, off: usize, entries: u32) {
    put_u16(buf, off, 0x0004); // module type
    put_u32(buf, off + 16, 0x8086); // vendor
    buf[off + 20] = 0x15; // day (BCD)
    buf[off + 21] = 0x03; // month (BCD)
    put_u16(buf, off + 22, 0x2019); // year (BCD)
    let magic = b"$MN2";
    for i in 0..4 {
        buf[off + 28 + i] = magic[i];
    }
    put_u32(buf, off + 32, entries);
    put_u16(buf, off + 36, 11); // version major
    put_u16(buf, off + 38, 8); // version minor
    put_u32(buf, off + 384, 17); // RSA public exponent
}

#[test]
fn manifest_decodes_fixed_header() {
    let mut buf: Vec<u8> = vec![0; MANIFEST_SIZE];
    put_manifest(&mut buf, 0, 3);
    let m = Manifest::new(&buf, 0).unwrap();
    assert_eq!(m.header.mod_type, 4);
    assert!(m.header.vendor.is_intel());
    assert_eq!(m.header.date.day, 0x15);
    assert_eq!(m.header.date.month, 0x03);
    assert_eq!(m.header.date.year, 0x2019);
    assert_eq!(m.header.entries, 3);
    assert_eq!(m.header.version.major, 11);
    assert_eq!(m.header.version.minor, 8);
    assert_eq!(m.rsa_pub_exp, 17);
    assert_eq!(m.rsa_pub_key.len(), 256);
    assert_eq!(m.rsa_sig.len(), 256);
}

#[test]
fn manifest_rejects_bad_magic() {
    let buf: Vec<u8> = vec![0; MANIFEST_SIZE];
    match Manifest::new(&buf, 0) {
        Err(MeError::BadMagic(expected, actual)) => {
            assert_eq!(expected, 0x324E4D24);
            assert_eq!(actual, 0);
        },
        other => panic!("expected BadMagic, got {:?}", other),
    }
}

#[test]
fn manifest_rejects_short_input() {
    let mut buf: Vec<u8> = vec![0; MANIFEST_SIZE];
    put_manifest(&mut buf, 0, 0);
    // The header fits, but the RSA material does not.
    buf.truncate(200);
    assert_eq!(Manifest::new(&buf, 0).unwrap_err(), MeError::Truncated);
}

#[test]
fn cpd_decodes_entries_and_attaches_manifest() {
    let mut buf: Vec<u8> = vec![0; 0x200 + MANIFEST_SIZE];
    let magic = b"$CPD";
    for i in 0..4 {
        buf[i] = magic[i];
    }
    put_u32(&mut buf, 4, 2); // two entries
    put_u32(&mut buf, 8, 0); // plain header
    let pn = b"FTPR";
    for i in 0..4 {
        buf[12 + i] = pn[i];
    }
    // Entry 0: "kernel", offset carries flag bits above bit 24.
    let n0 = b"kernel";
    for i in 0..6 {
        buf[16 + i] = n0[i];
    }
    put_u32(&mut buf, 28, 0x0300_0100);
    put_u32(&mut buf, 32, 0x40);
    // Entry 1: "FTPR.man" at 0x200.
    let n1 = b"FTPR.man";
    for i in 0..8 {
        buf[40 + i] = n1[i];
    }
    put_u32(&mut buf, 52, 0x200);
    put_manifest(&mut buf, 0x200, 0);
    let cpd = CodePartitionDirectory::new(&buf, 0).unwrap();
    assert_eq!(cpd.name, b"FTPR".to_vec());
    assert_eq!(cpd.entries.len(), 2);
    assert_eq!(cpd.entries[0].name(), b"kernel".to_vec());
    // The stored offset is masked to its low 24 bits.
    assert_eq!(cpd.entries[0].offset, 0x100);
    assert_eq!(cpd.entries[0].size, 0x40);
    let man = cpd.manifest.as_ref().unwrap();
    assert!(man.header.vendor.is_intel());
    assert_eq!(man.rsa_pub_exp, 17);
}

#[test]
fn cpd_without_man_entry_notes_no_manifest() {
    let mut buf: Vec<u8> = vec![0; 0x100];
    let magic = b"$CPD";
    for i in 0..4 {
        buf[i] = magic[i];
    }
    put_u32(&mut buf, 4, 1);
    let pn = b"NFTP";
    for i in 0..4 {
        buf[12 + i] = pn[i];
    }
    let n0 = b"bup";
    for i in 0..3 {
        buf[16 + i] = n0[i];
    }
    let cpd = CodePartitionDirectory::new(&buf, 0).unwrap();
    assert_eq!(cpd.manifest.as_ref().unwrap_err(), &MeError::NoManifest);
}

#[test]
fn cpd_header_extension_shifts_entries() {
    let mut buf: Vec<u8> = vec![0; 0x100];
    let magic = b"$CPD";
    for i in 0..4 {
        buf[i] = magic[i];
    }
    put_u32(&mut buf, 4, 1);
    put_u32(&mut buf, 8, 0x0014_0102); // header extension marker
    let pn = b"FTPR";
    for i in 0..4 {
        buf[12 + i] = pn[i];
    }
    // With the extension, the first entry starts at 20.
    let n0 = b"rbe";
    for i in 0..3 {
        buf[20 + i] = n0[i];
    }
    put_u32(&mut buf, 36, 0x80);
    let cpd = CodePartitionDirectory::new(&buf, 0).unwrap();
    assert_eq!(cpd.entries[0].name(), b"rbe".to_vec());
    assert_eq!(cpd.entries[0].size, 0x80);
}

#[test]
fn gen2_directory_decodes_mme_entries() {
    let mut buf: Vec<u8> = vec![0; MANIFEST_SIZE + 12 + 96];
    put_manifest(&mut buf, 0, 1);
    let name = b"MDMV";
    for i in 0..4 {
        buf[MANIFEST_SIZE + i] = name[i];
    }
    let e = MANIFEST_SIZE + 12;
    let em = b"$MME";
    for i in 0..4 {
        buf[e + i] = em[i];
    }
    let en = b"Pavp";
    for i in 0..4 {
        buf[e + 4 + i] = en[i];
    }
    put_u32(&mut buf, e + 52, 0x2009_000); // module base
    put_u32(&mut buf, e + 60, 0x4000); // code size
    put_u32(&mut buf, e + 68, 0x5000); // memory size
    // Flags: compression 2 (LZMA), RAPI 3, KAPI 1.
    let flags: u32 = (2 << 4) | (3 << 17) | (1 << 20);
    put_u32(&mut buf, e + 80, flags);
    let dir = Directory::new(&buf, 0).unwrap();
    assert_eq!(dir.name, b"MDMV".to_vec());
    assert_eq!(dir.entries.len(), 1);
    let entry = &dir.entries[0];
    assert_eq!(entry.compression_type(), Compression::Lzma);
    let bm = entry.bin_map();
    assert_eq!(bm.rapi, 3);
    assert_eq!(bm.kapi, 1);
    assert_eq!(bm.code_start, 0x2009_000 + 4 * 0x1000);
    assert_eq!(bm.code_end, 0x2009_000 + 0x4000);
    assert_eq!(bm.data_end, 0x2009_000 + 0x5000);
}

#[test]
fn gen2_directory_needs_a_manifest() {
    let buf: Vec<u8> = vec![0; MANIFEST_SIZE + 12];
    assert!(Directory::new(&buf, 0).is_err());
}

#[test]
fn cpd_rejects_missing_magic() {
    // A well-sized table without the $CPD magic is not a directory.
    let mut buf: Vec<u8> = vec![0; 0x100];
    put_u32(&mut buf, 4, 1);
    match CodePartitionDirectory::new(&buf, 0) {
        Err(MeError::BadMagic(expected, actual)) => {
            assert_eq!(expected, 0x44504324);
            assert_eq!(actual, 0);
        },
        other => panic!("expected BadMagic, got {:?}", other),
    }
}
