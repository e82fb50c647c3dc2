use me_fs_rs::err::MeError;
use me_fs_rs::fit::{get_mapping, EntryType, Fit, MAP_16M, MAP_8M, SIZE_16M, SIZE_8M};

fn put_u32(buf: &mut Vec<u8>, off: usize, v: u32) {
    let b = v.to_le_bytes();
    for i in 0..4 {
        buf[off + i] = b[i];
    }
}

#[test]
fn mapping_masks_by_image_size() {
    assert_eq!(get_mapping(SIZE_8M), MAP_8M);
    assert_eq!(get_mapping(SIZE_16M), MAP_16M);
    // Any power-of-two size maps with size - 1.
    assert_eq!(get_mapping(0x40_0000), 0x3F_FFFF);
    assert_eq!(get_mapping(0x400), 0x3FF);
    // Other sizes fall back to the 16 MiB mask.
    assert_eq!(get_mapping(0x123456), MAP_16M);
    assert_eq!(get_mapping(0), MAP_16M);
}

#[test]
fn entry_type_decoding() {
    assert_eq!(EntryType::try_from(0x00), Ok(EntryType::Header));
    assert_eq!(EntryType::try_from(0x01), Ok(EntryType::MicrocodeUpdate));
    assert_eq!(EntryType::try_from(0x10), Ok(EntryType::CSESecureBoot));
    assert_eq!(EntryType::try_from(0x2D), Ok(EntryType::FeaturePolicyDeliveryRecord));
    assert!(EntryType::try_from(0x04).is_err());
    assert!(EntryType::try_from(0x2E).is_err());
    assert!(EntryType::try_from(0x7F).is_err());
    assert!(EntryType::try_from(0x40).is_err());
}

#[test]
fn fit_locates_and_decodes_entries() {
    let mut img: Vec<u8> = vec![0; 0x400];
    // FIT pointer at len - 0x40 resolves through the 16 MiB mask.
    put_u32(&mut img, 0x3C0, 0x100);
    // Header: "_FIT_   ", 2 entries (the header counts as the first).
    let magic = b"_FIT_   ";
    for i in 0..8 {
        img[0x100 + i] = magic[i];
    }
    put_u32(&mut img, 0x108, 2);
    // One 16-byte entry at 0x110.
    img[0x110] = 0x44;
    img[0x118] = 0x10; // 24-bit size, low byte
    img[0x11E] = 0x81; // checksum-valid bit plus type 1
    img[0x11F] = 0x5A;
    let fit = Fit::new(&img).unwrap();
    assert_eq!(fit.offset, 0x100);
    // A 0x400-byte image is a power of two: its mask is size - 1.
    assert_eq!(fit.mapping, 0x3FF);
    assert_eq!(fit.header.entries, 2);
    assert_eq!(fit.entries.len(), 1);
    let e = &fit.entries[0];
    assert_eq!(e.addr, 0x44);
    assert_eq!(e.size, vec![0x10, 0, 0]);
    assert!(e.is_checksum_valid());
    assert_eq!(e.get_type(), Ok(EntryType::MicrocodeUpdate));
    assert_eq!(e.get_type_name(), "Microcode Update");
    assert_eq!(e.checksum, 0x5A);
}

#[test]
fn fit_absent_pointer_is_no_fit() {
    let mut img: Vec<u8> = vec![0; 0x400];
    put_u32(&mut img, 0x3C0, 0xFFFF_FFFF);
    assert_eq!(Fit::new(&img).unwrap_err(), MeError::NoFit);
}

#[test]
fn fit_misaligned_pointer_is_no_fit() {
    let mut img: Vec<u8> = vec![0; 0x400];
    put_u32(&mut img, 0x3C0, 0x104);
    assert_eq!(Fit::new(&img).unwrap_err(), MeError::NoFit);
}

#[test]
fn fit_short_image_is_truncated() {
    let img: Vec<u8> = vec![0; 0x20];
    assert_eq!(Fit::new(&img).unwrap_err(), MeError::Truncated);
}

#[test]
fn fit_bad_magic_is_reported() {
    let mut img: Vec<u8> = vec![0; 0x400];
    put_u32(&mut img, 0x3C0, 0x100);
    match Fit::new(&img) {
        Err(MeError::BadMagic(_, actual)) => assert_eq!(actual, 0),
        other => panic!("expected BadMagic, got {:?}", other),
    }
}
