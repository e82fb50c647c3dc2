use me_fs_rs::err::MeError;
use me_fs_rs::mfs::gen2::{parse, ChunkHeader, Indices};
use me_fs_rs::mfs::{parse as mfs_parse, MfsTree};

const PAGE_SIZE: usize = 0x4000;

fn put_u16(buf: &mut [u8], off: usize, v: u16) {
    let b = v.to_le_bytes();
    buf[off] = b[0];
    buf[off + 1] = b[1];
}

/// A journal page: number 0, the `"MFS\0"` magic, and the given records.
fn build_page0(log: &[(u16, u8)]) -> Vec<u8> {
    let mut page = vec![0u8; PAGE_SIZE];
    page[0] = 0x00;
    page[1] = 0x78;
    let magic = b"MFS\0";
    for i in 0..4 {
        page[8 + i] = magic[i];
    }
    let mut pos = 20;
    for (kind, id) in log {
        put_u16(&mut page, pos, *kind);
        page[pos + 2] = *id;
        pos += 11;
    }
    put_u16(&mut page, pos, 0xFFFF);
    page
}

#[test]
fn gen2_page0_journal_is_decoded() {
    let img = build_page0(&[(0x70FC, 0x11), (0x70DC, 0x22)]);
    let m = parse(&img).unwrap();
    assert_eq!(m.pages.len(), 1);
    assert_eq!(m.pages[0].header.num, 0);
    assert!(!m.pages[0].is_active());
    assert_eq!(m.log.len(), 2);
    assert_eq!(m.log[0].kind, 0x70FC);
    assert_eq!(m.log[0].id, 0x11);
    assert_eq!(m.log[1].kind, 0x70DC);
}

#[test]
fn gen2_active_page_chunks_are_walked() {
    let mut img = build_page0(&[]);
    let mut page1 = vec![0xFFu8; PAGE_SIZE];
    page1[0] = 0x01; // page number: active
    page1[1] = 0x78;
    // One live chunk at the start of the chunk area: flags 0x20 (active),
    // size 0x30 (already 16-aligned).
    page1[0xD0] = 0x20;
    page1[0xD1] = 0x30;
    img.extend_from_slice(&page1);
    let m = parse(&img).unwrap();
    assert_eq!(m.pages.len(), 2);
    let p1 = &m.pages[1];
    assert!(p1.is_active());
    assert_eq!(p1.live_chunks.len(), 1);
    let c = &p1.live_chunks[0];
    assert_eq!(c.offset, 0);
    assert_eq!(c.header.flags, 0x20);
    assert_eq!(c.header.size, 0x30);
    assert!(c.is_active());
    assert_eq!(c.header.size(), 0x30);
}

#[test]
fn gen2_chunk_spans() {
    // Sizes round up to a 16-byte multiple; only the distinguished flag
    // value spans size * 256 bytes instead.
    assert_eq!(ChunkHeader { flags: 0x20, size: 0x30 }.size(), 0x30);
    assert_eq!(ChunkHeader { flags: 0x20, size: 0x31 }.size(), 0x40);
    assert_eq!(ChunkHeader { flags: 0x20, size: 5 }.size(), 16);
    assert_eq!(ChunkHeader { flags: 0x20, size: 2 }.size(), 16);
    assert_eq!(ChunkHeader { flags: 0xB0, size: 0x30 }.size(), 0x30 * 0x100);
    assert_eq!(ChunkHeader { flags: 0xB0, size: 2 }.size(), 0x200);
}

#[test]
fn gen2_needs_page_size_multiple() {
    let img = vec![0u8; PAGE_SIZE + 1];
    assert_eq!(parse(&img).unwrap_err(), MeError::Truncated);
}

#[test]
fn gen2_page0_needs_magic() {
    let mut img = build_page0(&[]);
    img[8] = 0;
    match parse(&img) {
        Err(MeError::BadMagic(expected, _)) => assert_eq!(expected, 0x0053464D),
        other => panic!("expected BadMagic, got {:?}", other),
    }
}

#[test]
fn mfs_dispatch_heuristic() {
    // A first word matching the Gen 2 page mask selects the Gen 2 parser.
    let mut img = build_page0(&[]);
    img[0] = 0x00;
    img[1] = 0x78;
    img[2] = 0xFF;
    img[3] = 0xFF;
    match mfs_parse(&img).unwrap() {
        MfsTree::Gen2(m) => assert_eq!(m.pages.len(), 1),
        MfsTree::Gen3(_) => panic!("expected a Gen 2 tree"),
    }
}

#[test]
fn gen2_index_table_is_read() {
    let mut img = build_page0(&[]);
    for i in 0..0x40 {
        img[0x90 + i] = i as u8;
    }
    let ix = Indices::read(&img, 0).unwrap();
    assert_eq!(ix.0.len(), 0x40);
    assert_eq!(ix.0[0x3F], 0x3F);
    let short = vec![0u8; 0x10];
    assert!(Indices::read(&short, 0).is_err());
}
