use me_fs_rs::crc::{compute_chunk_crc, crc16, crc16_table, crc_idx, next_chunk_index};

#[test]
fn crc_table_first_eight_values() {
    let t = crc16_table();
    assert_eq!(t.len(), 256);
    let expected: [u16; 8] = [0x0000, 0x1021, 0x2042, 0x3063, 0x4084, 0x50A5, 0x60C6, 0x70E7];
    for i in 0..8 {
        assert_eq!(t[i], expected[i]);
    }
}

#[test]
fn crc16_check_value() {
    // The IBM-3740 check value over the digits 1..9.
    let data: Vec<u8> = b"123456789".to_vec();
    assert_eq!(crc16(&data), 0x29B1);
}

#[test]
fn crc16_empty_is_init() {
    let data: Vec<u8> = Vec::new();
    assert_eq!(crc16(&data), 0xFFFF);
}

#[test]
fn chunk_index_chain_first_slot() {
    // With a single slot of value zero, the derived index after that slot
    // is the index hash of zero.
    assert_eq!(next_chunk_index(0, 0), crc_idx(0));
}

#[test]
fn crc_idx_of_zero() {
    // Initial value 0x3FFF, both zero bytes folded in, 14-bit masked.
    assert_eq!(crc_idx(0), 0x0B5B);
}

#[test]
fn crc_idx_is_pure() {
    for v in [0u16, 1, 0x1234, 0x3FFF, 0xFFFF] {
        assert_eq!(crc_idx(v), crc_idx(v));
        assert!(crc_idx(v) <= 0x3FFF);
    }
}

#[test]
fn chunk_crc_appends_index_bytes() {
    // The chunk CRC is the CRC over payload || LE16(index): recomputing
    // it by hand over the concatenation must agree.
    let payload: Vec<u8> = vec![0xAB; 64];
    let idx: u16 = 0x0123;
    let mut whole = payload.clone();
    whole.push((idx & 0xFF) as u8);
    whole.push((idx >> 8) as u8);
    assert_eq!(compute_chunk_crc(&payload, idx), crc16(&whole));
    let zeros: Vec<u8> = vec![0; 64];
    assert_eq!(compute_chunk_crc(&zeros, 0), 0xD5B6);
}
