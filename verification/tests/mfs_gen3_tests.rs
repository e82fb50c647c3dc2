use me_fs_rs::crc::{compute_chunk_crc, next_chunk_index};
use me_fs_rs::err::MeError;
use me_fs_rs::mfs::gen3::{parse, parse_dir_blob, read_file_at};
use me_fs_rs::mfs::MfsTree;

const PAGE_SIZE: usize = 0x2000;
const PAGE_MAGIC: u32 = 0xAA55_7887;

fn put_u16(buf: &mut [u8], off: usize, v: u16) {
    let b = v.to_le_bytes();
    buf[off] = b[0];
    buf[off + 1] = b[1];
}

fn put_u32(buf: &mut [u8], off: usize, v: u32) {
    let b = v.to_le_bytes();
    for i in 0..4 {
        buf[off + i] = b[i];
    }
}

fn page_header(page: &mut [u8], usn: u32, first_chunk: u16) {
    put_u32(page, 0, PAGE_MAGIC);
    put_u32(page, 4, usn);
    put_u16(page, 14, first_chunk);
}

/// Builds a system page whose chunks carry the given system area slices at
/// derived indices `0..n`.
fn build_sys_page(usn: u32, sys_area: &[u8], n: usize) -> Vec<u8> {
    let mut page = vec![0u8; PAGE_SIZE];
    page_header(&mut page, usn, 0);
    let mut idx: u16 = 0;
    for k in 0..n {
        let want = k as u16;
        let slot = next_chunk_index(idx, want); // slot ^ crcIdx(idx) == want
        put_u16(&mut page, 18 + 2 * k, slot);
        idx = want;
        let payload: Vec<u8> = sys_area[64 * k..64 * (k + 1)].to_vec();
        let crc = compute_chunk_crc(&payload, want);
        let coff = 18 + 242 + k * 66;
        page[coff..coff + 64].copy_from_slice(&payload);
        put_u16(&mut page, coff + 64, crc);
    }
    // End-of-list marker, free slots after it.
    put_u16(&mut page, 18 + 2 * n, 0x7FFF);
    for k in (n + 1)..121 {
        put_u16(&mut page, 18 + 2 * k, 0xFFFF);
    }
    page
}

/// Builds a data page holding the given (slot position, 66-byte chunk)
/// pairs.
fn build_data_page(usn: u32, first_chunk: u16, chunks: &[(usize, Vec<u8>)]) -> Vec<u8> {
    let mut page = vec![0u8; PAGE_SIZE];
    page_header(&mut page, usn, first_chunk);
    for k in 0..122 {
        page[18 + k] = 0xFF;
    }
    for (pos, bytes) in chunks {
        page[18 + pos] = 0x01;
        let coff = 18 + 122 + pos * 66;
        page[coff..coff + 66].copy_from_slice(bytes);
    }
    page
}

/// Builds a whole minimal volume: five system chunks holding the volume
/// header and FAT, one data page, one blank page. The root directory at
/// file index 8 holds one plain file.
fn build_volume() -> (Vec<u8>, Vec<u8>, Vec<u8>) {
    let n_sys: u16 = 5;
    let files: u16 = 10;
    let n_data_chunks: usize = 122;
    // Root directory blob: one entry (24 bytes) plus the security section.
    let mut root_blob = vec![0u8; 76];
    put_u32(&mut root_blob, 0, 0); // file_no: FAT index 0
    put_u16(&mut root_blob, 4, 0); // mode: plain file
    put_u16(&mut root_blob, 6, 1); // uid
    put_u16(&mut root_blob, 8, 2); // gid
    put_u16(&mut root_blob, 10, 3); // salt
    root_blob[12] = b'f';
    // Security section: zero flags, zero nonce.
    let file_content: Vec<u8> = vec![0xC1, 0xC2, 0xC3, 0xC4, 0xC5];
    // FAT: chain pointers must exceed 66, lest they read as tail
    // lengths. The root chain is 8 -> 70 -> 71 -> tail 12; the file
    // chain is 0 -> 73 -> tail 5.
    let mut fat = vec![0u16; files as usize + n_data_chunks];
    fat[8] = 70;
    fat[70] = 71;
    fat[71] = 12;
    fat[0] = 73;
    fat[73] = 5;
    // System area: volume header, then the FAT.
    let mut sys_area = vec![0u8; 5 * 64];
    put_u32(&mut sys_area, 0, 0x724F_6201);
    put_u32(&mut sys_area, 4, 1); // version
    put_u32(&mut sys_area, 8, (n_sys as u32 + 122) * 64); // capacity
    put_u16(&mut sys_area, 12, files);
    for (i, v) in fat.iter().enumerate() {
        put_u16(&mut sys_area, 14 + 2 * i, *v);
    }
    // Data chunks: root blob in chunks 10 and 11 (slots 5 and 6 are
    // chunk indices 10 and 11... slot position = index - first_chunk).
    let mut c_root0 = vec![0u8; 66];
    c_root0[0..64].copy_from_slice(&root_blob[0..64]);
    let mut c_root1 = vec![0u8; 66];
    c_root1[0..12].copy_from_slice(&root_blob[64..76]);
    let mut c_file = vec![0u8; 66];
    c_file[0..5].copy_from_slice(&file_content);
    // The chunk for chain cell h sits at slot position h - files.
    let data_page = build_data_page(
        2,
        n_sys,
        &[(60, c_root0), (61, c_root1), (63, c_file)],
    );
    let sys_page = build_sys_page(1, &sys_area, 5);
    let blank = vec![0xFFu8; PAGE_SIZE];
    let mut img = Vec::new();
    img.extend_from_slice(&sys_page);
    img.extend_from_slice(&data_page);
    img.extend_from_slice(&blank);
    (img, root_blob, file_content)
}

#[test]
fn volume_reconstructs_files_and_directories() {
    let (img, root_blob, file_content) = build_volume();
    let v = parse(&img).unwrap();
    assert_eq!(v.n_pages, 3);
    assert_eq!(v.n_sys, 5);
    assert_eq!(v.header.magic, 0x724F_6201);
    assert_eq!(v.header.files, 10);
    assert_eq!(v.fat.len(), 10 + 122);
    assert_eq!(v.fat[8], 70);
    assert_eq!(v.sys_pages.len(), 1);
    assert_eq!(v.data_pages.len(), 1);
    assert_eq!(v.data_pages[0].header.first_chunk, 5);
    assert!(v.root.is_dir);
    assert_eq!(v.root.data, root_blob);
    assert_eq!(v.root.children.len(), 1);
    let child = &v.root.children[0];
    assert!(!child.is_dir);
    assert_eq!(child.entry.name[0], b'f');
    assert_eq!(child.entry.uid, 1);
    assert_eq!(child.entry.gid, 2);
    assert_eq!(child.entry.salt, 3);
    assert_eq!(child.data, file_content);
    let sec = v.root.security.as_ref().unwrap();
    assert_eq!(sec.flags, 0);
    assert_eq!(sec.nonce, vec![0u8; 16]);
}

#[test]
fn volume_system_chunk_crcs_hold() {
    // Every system chunk's stored CRC equals the CRC over its payload and
    // derived index.
    let (img, _, _) = build_volume();
    let v = parse(&img).unwrap();
    for p in &v.sys_pages {
        for c in &p.chunks {
            assert!(c.idx < v.n_sys);
            assert_eq!(c.crc, compute_chunk_crc(&c.payload, c.idx));
        }
    }
}

#[test]
fn volume_via_image_parse() {
    // The same volume reached through the partition table.
    let (vol, _, _) = build_volume();
    let mut img = vec![0u8; 0x1000];
    let magic = b"$FPT";
    for i in 0..4 {
        img[0x10 + i] = magic[i];
    }
    put_u32(&mut img, 0x14, 1);
    let e = 0x30;
    let name = b"MFS\0";
    for i in 0..4 {
        img[e + i] = name[i];
    }
    put_u32(&mut img, e + 8, 0x1000);
    put_u32(&mut img, e + 12, vol.len() as u32);
    img.extend_from_slice(&vol);
    let t = me_fs_rs::parse(&img).unwrap();
    assert_eq!(t.mfs_parts.len(), 1);
    let mp = &t.mfs_parts[0];
    assert_eq!(mp.offset, 0x1000);
    match mp.tree.as_ref().unwrap() {
        MfsTree::Gen3(g) => {
            assert_eq!(g.header.files, 10);
            assert_eq!(g.root.children.len(), 1);
        },
        MfsTree::Gen2(_) => panic!("expected a Gen 3 volume"),
    }
}

#[test]
fn corrupt_chunk_crc_fails() {
    let (mut img, _, _) = build_volume();
    // Flip a bit in the first system chunk's payload.
    img[18 + 242] ^= 1;
    assert_eq!(parse(&img).unwrap_err(), MeError::ChunkChecksumFailed);
}

#[test]
fn two_blank_pages_fail() {
    let (mut img, _, _) = build_volume();
    for b in img[2 * PAGE_SIZE..3 * PAGE_SIZE].iter_mut() {
        *b = 0xFF;
    }
    img.extend(vec![0xFFu8; PAGE_SIZE]);
    assert_eq!(parse(&img).unwrap_err(), MeError::MultipleBlankPages);
}

#[test]
fn no_blank_page_fails() {
    let (img, _, _) = build_volume();
    let trimmed: Vec<u8> = img[0..2 * PAGE_SIZE].to_vec();
    assert_eq!(parse(&trimmed).unwrap_err(), MeError::MissingBlankPage);
}

#[test]
fn bad_volume_magic_fails() {
    let (img, _, _) = build_volume();
    let mut sys_area = vec![0u8; 5 * 64];
    // Valid CRCs over a system area without the volume magic.
    sys_area[0] = 0x42;
    let sys_page = build_sys_page(1, &sys_area, 5);
    let mut img2 = sys_page;
    img2.extend_from_slice(&img[PAGE_SIZE..]);
    assert_eq!(parse(&img2).unwrap_err(), MeError::BadVolumeMagic);
}

#[test]
fn system_chunk_out_of_range_fails() {
    // A system chunk whose derived index is not below the data pages'
    // first chunk index.
    let sys_area = vec![0u8; 6 * 64];
    let sys_page = build_sys_page(1, &sys_area, 6); // indices 0..5, but n_sys is 5
    let data_page = build_data_page(2, 5, &[]);
    let blank = vec![0xFFu8; PAGE_SIZE];
    let mut img = sys_page;
    img.extend_from_slice(&data_page);
    img.extend_from_slice(&blank);
    assert_eq!(parse(&img).unwrap_err(), MeError::SystemChunkOutOfRange);
}

#[test]
fn data_page_ordering_violation_fails() {
    // A second data page whose first chunk index breaks the progression
    // n_sys + 122 * k.
    let (img, _, _) = build_volume();
    let stray = build_data_page(3, 6, &[]);
    let mut img2: Vec<u8> = img[0..2 * PAGE_SIZE].to_vec();
    img2.extend_from_slice(&stray);
    img2.extend_from_slice(&img[2 * PAGE_SIZE..3 * PAGE_SIZE]);
    assert_eq!(parse(&img2).unwrap_err(), MeError::DataPageOrderingViolation);
}

#[test]
fn fat_tail_of_two_full_chunks() {
    // A chain visiting three chunks, the last cut to 32 bytes, yields
    // 2 * 64 + 32 = 160 bytes. Chain pointers must exceed 66; values up
    // to 66 read as tail lengths.
    let files: u16 = 1;
    let mut fat = vec![0u16; 71];
    fat[0] = 67;
    fat[67] = 68;
    fat[68] = 69;
    fat[69] = 0x0020;
    let mut chunks: Vec<Option<Vec<u8>>> = vec![None; 70];
    for k in 0..3usize {
        let mut c = vec![0u8; 66];
        for i in 0..66 {
            c[i] = (k * 100 + i) as u8;
        }
        chunks[66 + k] = Some(c);
    }
    let f = read_file_at(&fat, files, &chunks, 0).unwrap();
    assert_eq!(f.len(), 160);
    assert_eq!(&f[0..64], &chunks[66].as_ref().unwrap()[0..64]);
    assert_eq!(&f[64..128], &chunks[67].as_ref().unwrap()[0..64]);
    // The tail is the first 32 bytes of the last chunk visited.
    assert_eq!(&f[128..160], &chunks[68].as_ref().unwrap()[0..32]);
}

#[test]
fn fat_tail_after_one_full_chunk() {
    // A chain of two chunks with terminal value 0x20 yields 64 + 32
    // bytes; the last 32 bytes are the first 32 of the second chunk.
    let files: u16 = 1;
    let mut fat = vec![0u16; 70];
    fat[0] = 67;
    fat[67] = 68;
    fat[68] = 0x0020;
    let mut chunks: Vec<Option<Vec<u8>>> = vec![None; 69];
    for k in 0..2usize {
        let mut c = vec![0u8; 66];
        for i in 0..66 {
            c[i] = (k * 90 + i) as u8;
        }
        chunks[66 + k] = Some(c);
    }
    let f = read_file_at(&fat, files, &chunks, 0).unwrap();
    assert_eq!(f.len(), 96);
    assert_eq!(&f[64..96], &chunks[67].as_ref().unwrap()[0..32]);
}

#[test]
fn fat_file_errors() {
    let files: u16 = 3;
    let mut fat = vec![0u16; 3 + 2];
    fat[0] = 0x0000;
    fat[1] = 0xFFFF;
    fat[2] = 1; // a head below the file count
    let chunks: Vec<Option<Vec<u8>>> = vec![None, None];
    assert_eq!(read_file_at(&fat, files, &chunks, 0).unwrap_err(), MeError::NoFile);
    assert_eq!(read_file_at(&fat, files, &chunks, 1).unwrap_err(), MeError::EmptyFile);
    assert_eq!(read_file_at(&fat, files, &chunks, 2).unwrap_err(), MeError::InodeOutOfRange);
    assert_eq!(read_file_at(&fat, files, &chunks, 9).unwrap_err(), MeError::NoFile);
}

#[test]
fn fat_cycle_terminates_with_error() {
    let files: u16 = 1;
    let mut fat = vec![0u16; 69];
    fat[0] = 67;
    fat[67] = 68;
    fat[68] = 67; // cycle
    let mut chunks: Vec<Option<Vec<u8>>> = vec![None; 68];
    chunks[66] = Some(vec![0u8; 66]);
    chunks[67] = Some(vec![0u8; 66]);
    assert!(read_file_at(&fat, files, &chunks, 0).is_err());
}

#[test]
fn directory_blob_sizes() {
    // Exactly 52 + 24k bytes parse into k entries; any remainder fails.
    for k in 0..3usize {
        let mut blob = vec![0u8; 52 + 24 * k];
        let n = blob.len();
        for b in blob[0..24 * k].iter_mut() {
            *b = 0x41;
        }
        // Keep the security section consistent: zero flags, zero nonce.
        for b in blob[n - 52..].iter_mut() {
            *b = 0;
        }
        let (entries, sec) = parse_dir_blob(&blob).unwrap();
        assert_eq!(entries.len(), k);
        assert_eq!(sec.flags, 0);
    }
    for r in [1usize, 5, 23] {
        let blob = vec![0u8; 52 + 24 + r];
        assert_eq!(parse_dir_blob(&blob).unwrap_err(), MeError::MalformedDirectory);
    }
    let short = vec![0u8; 51];
    assert_eq!(parse_dir_blob(&short).unwrap_err(), MeError::MalformedDirectory);
}

#[test]
fn directory_entry_fields_decode() {
    let mut blob = vec![0u8; 52 + 24];
    put_u32(&mut blob, 0, 0x1000_0008);
    put_u16(&mut blob, 4, 0x4000);
    put_u16(&mut blob, 6, 7);
    put_u16(&mut blob, 8, 9);
    put_u16(&mut blob, 10, 11);
    blob[12] = b'h';
    blob[13] = b'o';
    let (entries, _) = parse_dir_blob(&blob).unwrap();
    assert_eq!(entries.len(), 1);
    assert_eq!(entries[0].file_no, 0x1000_0008);
    assert_eq!(entries[0].mode, 0x4000);
    assert_eq!(entries[0].uid, 7);
    assert_eq!(entries[0].gid, 9);
    assert_eq!(entries[0].salt, 11);
    assert_eq!(&entries[0].name[0..2], b"ho");
}

#[test]
fn directory_flag_layout_is_checked() {
    // Bits 20.. of the flags must equal the encryption bit shifted up by
    // one; with encryption clear they must be zero.
    let mut blob = vec![0u8; 52];
    put_u32(&mut blob, 32, 0x0010_0000);
    assert_eq!(parse_dir_blob(&blob).unwrap_err(), MeError::BadDirectoryFlags);
    // With the encryption bit set, bits 20.. must be exactly 2.
    let mut blob2 = vec![0u8; 52];
    put_u32(&mut blob2, 32, 0x0020_0004);
    let (_, sec) = parse_dir_blob(&blob2).unwrap();
    assert_eq!(sec.flags, 0x0020_0004);
}

#[test]
fn directory_nonce_must_be_zero_without_protection() {
    let mut blob = vec![0u8; 52];
    blob[40] = 1; // a nonzero nonce byte
    assert_eq!(parse_dir_blob(&blob).unwrap_err(), MeError::BadNonce);
    // With anti-replay set, the nonce may be nonzero.
    let mut blob2 = vec![0u8; 52];
    put_u32(&mut blob2, 32, 0x0000_0001);
    blob2[40] = 1;
    assert!(parse_dir_blob(&blob2).is_ok());
}

#[test]
fn directory_entry_accessors() {
    let mut blob = vec![0u8; 52 + 24];
    put_u32(&mut blob, 0, 0x1000_0008);
    put_u16(&mut blob, 4, 0x4000 | 0x0200);
    let (entries, sec) = parse_dir_blob(&blob).unwrap();
    assert_eq!(entries[0].fat_index(), 8);
    assert!(entries[0].is_directory());
    assert!(entries[0].has_integrity());
    assert_eq!(sec.anti_replay(), 0);
    assert_eq!(sec.encryption(), 0);
}

#[test]
fn security_nonce_words_decode() {
    // With anti-replay set, the first eight nonce bytes read as a random
    // word and a counter.
    let mut blob = vec![0u8; 52];
    put_u32(&mut blob, 32, 0x0000_0001);
    put_u32(&mut blob, 36, 0xDEAD_BEEF);
    put_u32(&mut blob, 40, 42);
    let (_, sec) = parse_dir_blob(&blob).unwrap();
    assert_eq!(sec.anti_replay(), 1);
    assert_eq!(sec.ar_random().unwrap(), 0xDEAD_BEEF);
    assert_eq!(sec.ar_counter().unwrap(), 42);
}
