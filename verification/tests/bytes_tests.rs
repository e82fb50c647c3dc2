use me_fs_rs::bytes::{
    bytes_eq, read_be32, read_bytes, read_u16, read_u32, read_u64, read_u8, trim_nul,
};
use me_fs_rs::err::MeError;

#[test]
fn le_readers_decode_little_endian() {
    let data: Vec<u8> = vec![0x01, 0x02, 0x03, 0x04, 0x05, 0x06, 0x07, 0x08, 0x09];
    assert_eq!(read_u8(&data, 0), Ok(0x01));
    assert_eq!(read_u16(&data, 0), Ok(0x0201));
    assert_eq!(read_u32(&data, 0), Ok(0x04030201));
    assert_eq!(read_u32(&data, 1), Ok(0x05040302));
    assert_eq!(read_u64(&data, 0), Ok(0x0807060504030201));
    assert_eq!(read_be32(&data, 0), Ok(0x01020304));
}

#[test]
fn readers_fail_truncated_exactly_at_bounds() {
    let data: Vec<u8> = vec![0xAA, 0xBB, 0xCC];
    assert_eq!(read_u8(&data, 3), Err(MeError::Truncated));
    assert_eq!(read_u16(&data, 2), Err(MeError::Truncated));
    assert_eq!(read_u16(&data, 1), Ok(0xCCBB));
    assert_eq!(read_u32(&data, 0), Err(MeError::Truncated));
    assert_eq!(read_u64(&data, 0), Err(MeError::Truncated));
}

#[test]
fn read_bytes_copies_subrange() {
    let data: Vec<u8> = vec![1, 2, 3, 4, 5];
    assert_eq!(read_bytes(&data, 1, 3).unwrap(), vec![2, 3, 4]);
    assert_eq!(read_bytes(&data, 4, 2), Err(MeError::Truncated));
    assert_eq!(read_bytes(&data, 5, 0).unwrap(), Vec::<u8>::new());
}

#[test]
fn trim_nul_removes_trailing_zeroes_only() {
    assert_eq!(trim_nul(&vec![0x46, 0x54, 0x50, 0x52]), vec![0x46, 0x54, 0x50, 0x52]);
    assert_eq!(trim_nul(&vec![0x4D, 0x46, 0x53, 0x00]), vec![0x4D, 0x46, 0x53]);
    assert_eq!(trim_nul(&vec![0x00, 0x41, 0x00, 0x00]), vec![0x00, 0x41]);
    assert_eq!(trim_nul(&vec![0x00, 0x00]), Vec::<u8>::new());
}

#[test]
fn bytes_eq_compares_contents() {
    assert!(bytes_eq(&vec![1, 2, 3], &vec![1, 2, 3]));
    assert!(!bytes_eq(&vec![1, 2, 3], &vec![1, 2]));
    assert!(!bytes_eq(&vec![1, 2, 3], &vec![1, 2, 4]));
    assert!(bytes_eq(&Vec::new(), &Vec::new()));
}
