//! MFS Gen 2 parsing: a log of 16 KiB pages holding variable-length chunk
//! records, with a journal table on the lowest-numbered page.

use vstd::prelude::*;

use crate::bytes::{le16_at, le32_at, read_bytes, read_u16, read_u32};
use crate::err::MeError;

verus! {

/// `"MFS\0"` as a little-endian 32-bit value, the page-0 magic.
pub const MFS_MAGIC: u32 = 0x0053464D;

/// The size of a Gen 2 page in bytes.
pub const PAGE_SIZE: usize = 0x4000;

/// The size of the page header in bytes.
pub const PAGE_HEADER_SIZE: usize = 20;

/// Where the per-page index table starts.
pub const INDICES_OFFSET: usize = 0x90;

/// The size of the per-page index table in bytes.
pub const INDICES_SIZE: usize = 0x40;

/// Where chunk records start within a page.
pub const CHUNK_OFFSET: usize = 0xD0;

/// The size of a journal record in bytes.
pub const LOG_ENTRY_SIZE: usize = 11;

/// The chunk flag value whose records carry a distinguished 8-byte
/// metadata field and span `size * 256` bytes.
pub const BIG_CHUNK_FLAGS: u8 = 0xB0;

/// The low nibble of a Gen 2 page's flags byte.
#[derive(Clone, Copy, Debug, PartialEq, Eq, Structural)]
pub struct PageFlags(pub u8);

/// The 20-byte Gen 2 page header.
#[derive(Clone, Debug)]
pub struct PageHeader {
    pub num: u8,
    pub stride: u8,
    pub flags: PageFlags,
    pub state: u8,
    pub all_0: u32,
    /// `"MFS\0"` on the first page only.
    pub magic: Vec<u8>,
    pub smth: u32,
    pub all_f: u32,
}

/// A decoded Gen 2 page header equals the 20 bytes at `o`.
pub open spec fn gen2_header_matches(h: PageHeader, s: Seq<u8>, o: int) -> bool {
    &&& h.num == s[o]
    &&& h.stride == s[o + 1]
    &&& h.flags.0 == s[o + 2]
    &&& h.state == s[o + 3]
    &&& h.all_0 == le32_at(s, o + 4)
    &&& h.magic@ == s.subrange(o + 8, o + 12)
    &&& h.smth == le32_at(s, o + 12)
    &&& h.all_f == le32_at(s, o + 16)
}

/// The 2-byte header of a chunk record.
#[derive(Clone, Copy, Debug, PartialEq, Eq, Structural)]
pub struct ChunkHeader {
    pub flags: u8,
    pub size: u8,
}

/// How many bytes a chunk record spans: its size rounded up to a 16-byte
/// multiple, except that records of the distinguished flag value span
/// `size * 256` bytes.
pub open spec fn chunk_span(flags: u8, size: u8) -> int {
    if flags == BIG_CHUNK_FLAGS {
        size * 0x100
    } else if size % 16 == 0 {
        size as int
    } else {
        size + 16 - (size % 16)
    }
}

impl ChunkHeader {
    /// The number of bytes this record spans in its page.
    pub fn size(&self) -> (r: usize)
        ensures
            r == chunk_span(self.flags, self.size),
    {
        if self.flags == BIG_CHUNK_FLAGS {
            self.size as usize * 0x100
        } else {
            let s = self.size as usize;
            let sm = s % 16;
            if sm == 0 {
                s
            } else {
                s + 16 - sm
            }
        }
    }
}

/// A chunk record: its header and its offset relative to the start of the
/// page's chunk area.
#[derive(Clone, Copy, Debug, PartialEq, Eq, Structural)]
pub struct Chunk {
    pub header: ChunkHeader,
    pub offset: usize,
}

impl Chunk {
    /// Whether the chunk is active: the low four flag bits are clear.
    pub fn is_active(&self) -> (r: bool)
        ensures
            r == (self.header.flags & 0b1111 == 0),
    {
        self.header.flags & 0b1111 == 0
    }
}

/// A Gen 2 page: its header and its chunk records, live and dead.
#[derive(Clone, Debug)]
pub struct Page {
    pub header: PageHeader,
    pub live_chunks: Vec<Chunk>,
    pub dead_chunks: Vec<Chunk>,
    /// Byte offset of the page within the partition.
    pub offset: usize,
}

impl Page {
    /// Whether the page carries chunk records: neither the journal page
    /// nor unused.
    pub fn is_active(&self) -> (r: bool)
        ensures
            r == (self.header.num != 0x00 && self.header.num != 0xff),
    {
        let n = self.header.num;
        n != 0x00 && n != 0xff
    }
}

/// An 11-byte journal record from the lowest-numbered page.
#[derive(Clone, Copy, Debug, PartialEq, Eq, Structural)]
pub struct LogEntry {
    pub kind: u16,
    pub id: u8,
    pub _3: u16,
    pub _5: u16,
    pub _7: u16,
    pub _9: u16,
}

/// A decoded journal record equals the 11 bytes at `o`.
pub open spec fn log_entry_matches(e: LogEntry, s: Seq<u8>, o: int) -> bool {
    &&& e.kind == le16_at(s, o)
    &&& e.id == s[o + 2]
    &&& e._3 == le16_at(s, o + 3)
    &&& e._5 == le16_at(s, o + 5)
    &&& e._7 == le16_at(s, o + 7)
    &&& e._9 == le16_at(s, o + 9)
}

/// The 64-byte index table of an active page.
#[derive(Clone, Debug)]
pub struct Indices(pub Vec<u8>);

impl Indices {
    /// Reads the index table of the page at `po`.
    pub fn read(data: &Vec<u8>, po: usize) -> (r: Result<Indices, MeError>)
        ensures
            r matches Ok(ix) ==> po + INDICES_OFFSET + INDICES_SIZE <= data@.len() && ix.0@
                == data@.subrange(
                po + INDICES_OFFSET,
                po + INDICES_OFFSET + INDICES_SIZE,
            ),
            r is Err ==> r == Err::<Indices, MeError>(MeError::Truncated) && po + INDICES_OFFSET
                + INDICES_SIZE > data@.len(),
    {
        let _ = data.len();  // brings the length bound into scope
        if po > usize::MAX - INDICES_OFFSET {
            return Err(MeError::Truncated);
        }
        match read_bytes(data, po + INDICES_OFFSET, INDICES_SIZE) {
            Ok(v) => Ok(Indices(v)),
            Err(_) => Err(MeError::Truncated),
        }
    }
}

/// A parsed Gen 2 MFS partition: its pages in image order and the journal
/// of the lowest-numbered page.
#[derive(Debug)]
pub struct Gen2Mfs {
    pub pages: Vec<Page>,
    pub log: Vec<LogEntry>,
}

/// The index of the lowest-numbered page among the first `n`; the
/// earliest such page wins a tie.
pub open spec fn min_num_page(s: Seq<u8>, n: nat) -> int
    decreases n,
{
    if n <= 1 {
        0
    } else {
        let prev = min_num_page(s, (n - 1) as nat);
        if s[(n - 1) * PAGE_SIZE] < s[prev * PAGE_SIZE] {
            n - 1
        } else {
            prev
        }
    }
}

/// When parsing a Gen 2 partition succeeds: a whole number of pages, and
/// the lowest-numbered page carries the magic.
pub open spec fn gen2_parseable(s: Seq<u8>) -> bool {
    &&& s.len() > 0
    &&& s.len() % PAGE_SIZE as nat == 0
    &&& le32_at(s, min_num_page(s, s.len() / PAGE_SIZE as nat) * PAGE_SIZE + 8) == MFS_MAGIC
}

/// Reads the Gen 2 page header at `off`.
fn read_gen2_header(data: &Vec<u8>, off: usize) -> (r: Result<PageHeader, MeError>)
    ensures
        r matches Ok(h) ==> off + PAGE_HEADER_SIZE <= data@.len() && gen2_header_matches(
            h,
            data@,
            off as int,
        ),
        r is Err ==> r == Err::<PageHeader, MeError>(MeError::Truncated) && off + PAGE_HEADER_SIZE
            > data@.len(),
{
    if off >= data.len() || data.len() - off < PAGE_HEADER_SIZE {
        return Err(MeError::Truncated);
    }
    let num = data[off];
    let stride = data[off + 1];
    let flags = PageFlags(data[off + 2]);
    let state = data[off + 3];
    let all_0 = read_u32(data, off + 4).unwrap();
    let magic = read_bytes(data, off + 8, 4).unwrap();
    let smth = read_u32(data, off + 12).unwrap();
    let all_f = read_u32(data, off + 16).unwrap();
    Ok(PageHeader { num, stride, flags, state, all_0, magic, smth, all_f })
}

/// What the chunk walk of a page promises: each record's header equals the
/// two bytes at its position, and records stand in increasing offsets.
pub open spec fn gen2_chunks_match(chunks: Seq<Chunk>, s: Seq<u8>, po: int) -> bool {
    &&& forall|j: int, l: int|
        0 <= j < l < chunks.len() ==> (#[trigger] chunks[j].offset) < (#[trigger] chunks[l].offset)
    &&& forall|j: int|
        0 <= j < chunks.len() ==> {
            let c = #[trigger] chunks[j];
            &&& c.offset + CHUNK_OFFSET + 2 <= PAGE_SIZE
            &&& c.header.flags == s[po + CHUNK_OFFSET + c.offset]
            &&& c.header.size == s[po + CHUNK_OFFSET + c.offset + 1]
            &&& !(c.header.flags == 0xFF || c.header.size == 0)
        }
}

/// Walks the chunk records of an active page from the start of its chunk
/// area. A record whose flags are `0xFF` or whose size is zero is a dead
/// 16-byte slot; records after the first dead slot count as dead.
fn walk_chunks(data: &Vec<u8>, po: usize) -> (r: (Vec<Chunk>, Vec<Chunk>))
    requires
        po + PAGE_SIZE <= data@.len(),
    ensures
        gen2_chunks_match(r.0@, data@, po as int),
        gen2_chunks_match(r.1@, data@, po as int),
{
    let _ = data.len();  // brings the length bound into scope
    let mut live: Vec<Chunk> = Vec::new();
    let mut dead: Vec<Chunk> = Vec::new();
    let mut pos: usize = CHUNK_OFFSET;
    let mut seen_dead: bool = false;
    while pos < PAGE_SIZE && PAGE_SIZE - pos >= 2
        invariant
            CHUNK_OFFSET <= pos,
            po + PAGE_SIZE <= data@.len(),
            data@.len() <= usize::MAX,
            gen2_chunks_match(live@, data@, po as int),
            gen2_chunks_match(dead@, data@, po as int),
            forall|j: int| 0 <= j < live@.len() ==> (#[trigger] live@[j].offset) + CHUNK_OFFSET < pos,
            forall|j: int| 0 <= j < dead@.len() ==> (#[trigger] dead@[j].offset) + CHUNK_OFFSET < pos,
        decreases PAGE_SIZE + 16 - pos,
    {
        let flags = data[po + pos];
        let size = data[po + pos + 1];
        if flags == 0xFF || size == 0 {
            pos = pos + 16;
            seen_dead = true;
            continue;
        }
        let header = ChunkHeader { flags, size };
        let c = Chunk { header, offset: pos - CHUNK_OFFSET };
        let ghost old_live = live@;
        let ghost old_dead = dead@;
        if seen_dead {
            dead.push(c);
            proof {
                assert(forall|j: int| 0 <= j < old_dead.len() ==> dead@[j] == old_dead[j]);
            }
        } else {
            live.push(c);
            proof {
                assert(forall|j: int| 0 <= j < old_live.len() ==> live@[j] == old_live[j]);
            }
        }
        let span = header.size();
        if span < 16 {
            pos = pos + 16;
        } else if span > PAGE_SIZE - pos {
            pos = PAGE_SIZE;
        } else {
            pos = pos + span;
        }
    }
    (live, dead)
}

/// Parses a Gen 2 MFS partition: one 20-byte header per 16 KiB page, chunk
/// records on every active page, and the journal table of the
/// lowest-numbered page, which must carry the `"MFS\0"` magic.
pub fn parse(data: &Vec<u8>) -> (r: Result<Gen2Mfs, MeError>)
    ensures
        (r is Ok) <==> gen2_parseable(data@),
        r matches Err(e) ==> (e == MeError::Truncated || e matches MeError::BadMagic(_, _)),
        r matches Ok(m) ==> {
            &&& data@.len() % PAGE_SIZE as nat == 0
            &&& m.pages@.len() == data@.len() / PAGE_SIZE as nat
            &&& {
                let lb = min_num_page(data@, data@.len() / PAGE_SIZE as nat) * PAGE_SIZE
                    + PAGE_HEADER_SIZE;
                &&& forall|l: int|
                    0 <= l < m.log@.len() ==> log_entry_matches(
                        #[trigger] m.log@[l],
                        data@,
                        lb + LOG_ENTRY_SIZE * l,
                    )
                &&& {
                    let end = lb + LOG_ENTRY_SIZE * m.log@.len();
                    end + LOG_ENTRY_SIZE > data@.len() || le16_at(data@, end) == 0xFFFF
                }
            }
            &&& forall|j: int|
                0 <= j < m.pages@.len() ==> {
                    let p = #[trigger] m.pages@[j];
                    &&& p.offset == j * PAGE_SIZE
                    &&& p.offset + PAGE_SIZE <= data@.len()
                    &&& gen2_header_matches(p.header, data@, p.offset as int)
                    &&& gen2_chunks_match(p.live_chunks@, data@, p.offset as int)
                    &&& gen2_chunks_match(p.dead_chunks@, data@, p.offset as int)
                }
            &&& forall|j: int|
                0 <= j < m.log@.len() ==> (#[trigger] m.log@[j]).kind != 0xFFFF
        },
{
    let total = data.len();
    if total == 0 || total % PAGE_SIZE != 0 {
        return Err(MeError::Truncated);
    }
    let n_pages = total / PAGE_SIZE;
    proof {
        vstd::arithmetic::div_mod::lemma_fundamental_div_mod(total as int, PAGE_SIZE as int);
    }
    let mut pages: Vec<Page> = Vec::new();
    let mut i: usize = 0;
    while i < n_pages
        invariant
            i <= n_pages,
            total == data@.len(),
            total <= usize::MAX,
            n_pages * PAGE_SIZE == total,
            pages@.len() == i,
            forall|j: int|
                0 <= j < pages@.len() ==> {
                    let p = #[trigger] pages@[j];
                    &&& p.offset == j * PAGE_SIZE
                    &&& p.offset + PAGE_SIZE <= data@.len()
                    &&& gen2_header_matches(p.header, data@, p.offset as int)
                    &&& gen2_chunks_match(p.live_chunks@, data@, p.offset as int)
                    &&& gen2_chunks_match(p.dead_chunks@, data@, p.offset as int)
                },
        decreases n_pages - i,
    {
        proof {
            assert((i + 1) * PAGE_SIZE <= n_pages * PAGE_SIZE) by (nonlinear_arith)
                requires
                    i + 1 <= n_pages,
            ;
            assert(i * PAGE_SIZE + PAGE_SIZE == (i + 1) * PAGE_SIZE) by (nonlinear_arith);
        }
        let po: usize = i * PAGE_SIZE;
        let header = read_gen2_header(data, po).unwrap();
        let n = header.num;
        let (live_chunks, dead_chunks) = if n > 0 && n != 0xff {
            walk_chunks(data, po)
        } else {
            (Vec::new(), Vec::new())
        };
        pages.push(Page { header, live_chunks, dead_chunks, offset: po });
        i = i + 1;
    }
    // The journal lives on the lowest-numbered page, which carries the
    // magic.
    let mut first: usize = 0;
    let mut j: usize = 1;
    proof {
        assert(pages@[0].header.num == data@[0]);
    }
    while j < pages.len()
        invariant
            pages@.len() >= 1,
            pages@.len() == n_pages,
            n_pages * PAGE_SIZE == total,
            total == data@.len(),
            total <= usize::MAX,
            1 <= j <= pages@.len(),
            first < j,
            forall|l: int|
                0 <= l < pages@.len() ==> {
                    let p = #[trigger] pages@[l];
                    &&& p.offset == l * PAGE_SIZE
                    &&& p.offset + PAGE_SIZE <= data@.len()
                    &&& gen2_header_matches(p.header, data@, p.offset as int)
                    &&& gen2_chunks_match(p.live_chunks@, data@, p.offset as int)
                    &&& gen2_chunks_match(p.dead_chunks@, data@, p.offset as int)
                },
            first == min_num_page(data@, j as nat),
            forall|l: int| 0 <= l < j ==> pages@[first as int].header.num <= (#[trigger] pages@[l]).header.num,
        decreases pages@.len() - j,
    {
        proof {
            assert(pages@[j as int].header.num == data@[j as int * PAGE_SIZE]);
            assert(pages@[first as int].header.num == data@[first as int * PAGE_SIZE]);
        }
        if pages[j].header.num < pages[first].header.num {
            first = j;
        }
        j = j + 1;
    }
    let p0_off = pages[first].offset;
    proof {
        assert(pages@[first as int].offset + PAGE_SIZE <= data@.len());
        assert(first == min_num_page(data@, n_pages as nat));
    }
    let m = read_u32(data, p0_off + 8).unwrap();
    if m != MFS_MAGIC {
        return Err(MeError::BadMagic(MFS_MAGIC, m));
    }
    proof {
        assert(gen2_parseable(data@));
    }
    let mut log: Vec<LogEntry> = Vec::new();
    let mut pos: usize = p0_off + PAGE_HEADER_SIZE;
    let mut stop: bool = false;
    while pos < data.len() && data.len() - pos >= LOG_ENTRY_SIZE && !stop
        invariant
            total == data@.len(),
            total <= usize::MAX,
            gen2_parseable(data@),
            p0_off == min_num_page(data@, n_pages as nat) * PAGE_SIZE,
            pos == p0_off + PAGE_HEADER_SIZE + LOG_ENTRY_SIZE * log@.len(),
            forall|l: int|
                0 <= l < log@.len() ==> log_entry_matches(
                    #[trigger] log@[l],
                    data@,
                    p0_off + PAGE_HEADER_SIZE + LOG_ENTRY_SIZE * l,
                ),
            forall|l: int| 0 <= l < log@.len() ==> (#[trigger] log@[l]).kind != 0xFFFF,
            stop ==> pos + LOG_ENTRY_SIZE <= data@.len() && le16_at(data@, pos as int) == 0xFFFF,
        decreases data@.len() - pos, (if stop { 0int } else { 1int }),
    {
        let kind = read_u16(data, pos).unwrap();
        if kind == 0xFFFF {
            stop = true;
        } else {
            let id = data[pos + 2];
            let f3 = read_u16(data, pos + 3).unwrap();
            let f5 = read_u16(data, pos + 5).unwrap();
            let f7 = read_u16(data, pos + 7).unwrap();
            let f9 = read_u16(data, pos + 9).unwrap();
            log.push(LogEntry { kind, id, _3: f3, _5: f5, _7: f7, _9: f9 });
            pos = pos + LOG_ENTRY_SIZE;
        }
    }
    Ok(Gen2Mfs { pages, log })
}

} // verus!
