//! MFS Gen 3 volume reconstruction.
//!
//! The volume is an array of 8 KiB pages, exactly one of them blank. System
//! pages (`first_chunk == 0`) hold chunks whose logical indices are derived
//! through a CRC chain over their slot words; data pages (`first_chunk > 0`)
//! hold consecutively indexed chunks. System pages replay in update-sequence
//! order into a contiguous system area that starts with the volume header
//! and the FAT; files are chains of data chunks linked through the FAT.

use vstd::prelude::*;

use crate::bytes::{le16_at, le32_at, read_bytes, read_u16, read_u32};
use crate::crc::{chunk_crc, compute_chunk_crc, next_chunk_index, next_index};
use crate::err::MeError;

verus! {

/// The size of an MFS Gen 3 page in bytes.
pub const PAGE_SIZE: usize = 0x2000;

/// The first word of every non-blank page.
pub const PAGE_MAGIC: u32 = 0xAA55_7887;

/// The fixed page header length in bytes.
pub const PAGE_HEADER_SIZE: usize = 18;

/// Slots (and chunks) in a data page.
pub const DATA_PAGE_SLOTS: usize = 122;

/// Slots in a system page; the last one can only end the list.
pub const SYS_PAGE_SLOTS: usize = 121;

/// Chunks in a system page.
pub const SYS_PAGE_CHUNKS: usize = 120;

/// A stored chunk: 64 payload bytes and a 2-byte CRC.
pub const CHUNK_SIZE: usize = 66;

/// The payload bytes of a chunk.
pub const CHUNK_PAYLOAD: usize = 64;

/// A free slot in a system page.
pub const SLOT_FREE: u16 = 0xFFFF;

/// The end-of-list marker in a system page.
pub const SLOT_END: u16 = 0x7FFF;

/// A free slot in a data page.
pub const DATA_SLOT_FREE: u8 = 0xFF;

/// The 18-byte page header.
#[derive(Clone, Copy, Debug, PartialEq, Eq, Structural)]
pub struct PageHeader {
    pub magic: u32,
    /// Update sequence number; monotonic per write, orders the replay.
    pub usn: u32,
    pub erase_count: u32,
    pub next_erase: u16,
    /// Zero on system pages; the index of the page's first chunk on data
    /// pages.
    pub first_chunk: u16,
    pub checksum: u8,
    pub zero: u8,
}

/// A decoded page header equals the 18 bytes at `o`.
pub open spec fn page_header_matches(h: PageHeader, s: Seq<u8>, o: int) -> bool {
    &&& h.magic == le32_at(s, o)
    &&& h.usn == le32_at(s, o + 4)
    &&& h.erase_count == le32_at(s, o + 8)
    &&& h.next_erase == le16_at(s, o + 12)
    &&& h.first_chunk == le16_at(s, o + 14)
    &&& h.checksum == s[o + 16]
    &&& h.zero == s[o + 17]
}

/// Reads the page header at `off`.
pub fn read_page_header(data: &Vec<u8>, off: usize) -> (r: Result<PageHeader, MeError>)
    ensures
        r matches Ok(h) ==> off + PAGE_HEADER_SIZE <= data@.len() && page_header_matches(
            h,
            data@,
            off as int,
        ),
        r is Err ==> r == Err::<PageHeader, MeError>(MeError::Truncated) && off + PAGE_HEADER_SIZE
            > data@.len(),
{
    if off >= data.len() || data.len() - off < PAGE_HEADER_SIZE {
        return Err(MeError::Truncated);
    }
    let magic = read_u32(data, off).unwrap();
    let usn = read_u32(data, off + 4).unwrap();
    let erase_count = read_u32(data, off + 8).unwrap();
    let next_erase = read_u16(data, off + 12).unwrap();
    let first_chunk = read_u16(data, off + 14).unwrap();
    let checksum = data[off + 16];
    let zero = data[off + 17];
    Ok(PageHeader { magic, usn, erase_count, next_erase, first_chunk, checksum, zero })
}

/// A chunk of a data page: its slot position and its 66 stored bytes.
#[derive(Clone, Debug)]
pub struct DataChunk {
    pub pos: usize,
    pub bytes: Vec<u8>,
}

/// A data page and the chunks of its occupied slots, in slot order.
#[derive(Clone, Debug)]
pub struct DataPage {
    pub header: PageHeader,
    /// Byte offset of the page within the partition.
    pub offset: usize,
    pub chunks: Vec<DataChunk>,
}

/// A chunk of a system page: slot position, derived logical index, 64-byte
/// payload and its stored CRC.
#[derive(Clone, Debug)]
pub struct SysChunk {
    pub pos: usize,
    pub idx: u16,
    pub payload: Vec<u8>,
    pub crc: u16,
}

/// A system page and the chunks of its occupied slots, in slot order.
#[derive(Clone, Debug)]
pub struct SysPage {
    pub header: PageHeader,
    /// Byte offset of the page within the partition.
    pub offset: usize,
    /// How many slots were walked: up to the end-of-list marker or all.
    pub slots_walked: usize,
    pub chunks: Vec<SysChunk>,
}

/// The slot byte of data page `po` at position `k`.
pub open spec fn data_slot(s: Seq<u8>, po: int, k: int) -> u8 {
    s[po + PAGE_HEADER_SIZE + k]
}

/// The slot word of system page `po` at position `k`.
pub open spec fn sys_slot(s: Seq<u8>, po: int, k: int) -> u16 {
    le16_at(s, po + PAGE_HEADER_SIZE + 2 * k)
}

/// The byte offset of data chunk `k` within its page.
pub open spec fn data_chunk_off(po: int, k: int) -> int {
    po + PAGE_HEADER_SIZE + DATA_PAGE_SLOTS + k * CHUNK_SIZE
}

/// The byte offset of system chunk `k` within its page.
pub open spec fn sys_chunk_off(po: int, k: int) -> int {
    po + PAGE_HEADER_SIZE + 2 * SYS_PAGE_SLOTS + k * CHUNK_SIZE
}

/// The running derived index after the first `k` slots of system page `po`:
/// starts at 0; free slots leave it unchanged; every other slot folds in
/// through the CRC chain.
pub open spec fn sys_idx_after(s: Seq<u8>, po: int, k: nat) -> u16
    decreases k,
{
    if k == 0 {
        0
    } else {
        let prev = sys_idx_after(s, po, (k - 1) as nat);
        let sl = sys_slot(s, po, k - 1);
        if sl == SLOT_FREE {
            prev
        } else {
            next_index(prev, sl)
        }
    }
}

/// The slot position at which the walk of system page `po` stops, looking
/// from position `k` on: the first end-of-list marker, or all 121 slots.
pub open spec fn sys_stop(s: Seq<u8>, po: int, k: int) -> int
    decreases (if k <= 121 { 121 - k } else { 0 }),
{
    if k >= 121 {
        121
    } else if sys_slot(s, po, k) == SLOT_END {
        k
    } else {
        sys_stop(s, po, k + 1)
    }
}

/// The stop position lies between `k` and the slot count.
pub proof fn lemma_sys_stop_bounds(s: Seq<u8>, po: int, k: int)
    requires
        0 <= k <= 121,
    ensures
        k <= sys_stop(s, po, k) <= 121,
    decreases 121 - k,
{
    if k < 121 && sys_slot(s, po, k) != SLOT_END {
        lemma_sys_stop_bounds(s, po, k + 1);
    }
}

/// The slot walk of the system page at `po` succeeds: every occupied slot
/// before the stop lies below the chunk capacity, and its chunk's stored
/// CRC matches its payload and derived index.
pub open spec fn sys_page_ok(s: Seq<u8>, po: int) -> bool {
    forall|k: int|
        0 <= k < sys_stop(s, po, 0) && (#[trigger] sys_slot(s, po, k)) != SLOT_FREE ==> k
            < SYS_PAGE_CHUNKS && le16_at(s, sys_chunk_off(po, k) + CHUNK_PAYLOAD) == chunk_crc(
            s.subrange(sys_chunk_off(po, k), sys_chunk_off(po, k) + CHUNK_PAYLOAD),
            sys_idx_after(s, po, (k + 1) as nat),
        )
}

/// What a decoded data page promises of the partition bytes: chunks stand
/// in slot order, exactly the occupied slots, and carry the stored bytes.
pub open spec fn data_page_matches(p: DataPage, s: Seq<u8>, po: int) -> bool {
    &&& page_header_matches(p.header, s, po)
    &&& forall|j: int, l: int|
        0 <= j < l < p.chunks@.len() ==> (#[trigger] p.chunks@[j].pos) < (#[trigger] p.chunks@[l].pos)
    &&& forall|j: int|
        0 <= j < p.chunks@.len() ==> {
            let c = #[trigger] p.chunks@[j];
            &&& c.pos < DATA_PAGE_SLOTS
            &&& data_slot(s, po, c.pos as int) != DATA_SLOT_FREE
            &&& c.bytes@ == s.subrange(
                data_chunk_off(po, c.pos as int),
                data_chunk_off(po, c.pos as int) + CHUNK_SIZE,
            )
        }
    &&& forall|k: int|
        0 <= k < DATA_PAGE_SLOTS && data_slot(s, po, k) != DATA_SLOT_FREE ==> exists|j: int|
            0 <= j < p.chunks@.len() && (#[trigger] p.chunks@[j].pos) == k
}

/// Decodes the data page at `po`; `po + PAGE_SIZE` must lie within the
/// partition, which the page walk guarantees.
fn parse_data_page(data: &Vec<u8>, po: usize, header: PageHeader) -> (r: Result<DataPage, MeError>)
    requires
        po + PAGE_SIZE <= data@.len(),
        page_header_matches(header, data@, po as int),
    ensures
        r is Ok,
        r matches Ok(p) ==> {
            &&& p.offset == po
            &&& p.header == header
            &&& data_page_matches(p, data@, po as int)
        },
{
    let _ = data.len();  // brings the length bound into scope
    let mut chunks: Vec<DataChunk> = Vec::new();
    let mut k: usize = 0;
    while k < DATA_PAGE_SLOTS
        invariant
            k <= DATA_PAGE_SLOTS,
            po + PAGE_SIZE <= data@.len(),
            data@.len() <= usize::MAX,
            forall|j: int, l: int|
                0 <= j < l < chunks@.len() ==> (#[trigger] chunks@[j].pos) < (
                #[trigger] chunks@[l].pos),
            forall|j: int| 0 <= j < chunks@.len() ==> (#[trigger] chunks@[j].pos) < k,
            forall|j: int|
                0 <= j < chunks@.len() ==> {
                    let c = #[trigger] chunks@[j];
                    &&& c.pos < DATA_PAGE_SLOTS
                    &&& data_slot(data@, po as int, c.pos as int) != DATA_SLOT_FREE
                    &&& c.bytes@ == data@.subrange(
                        data_chunk_off(po as int, c.pos as int),
                        data_chunk_off(po as int, c.pos as int) + CHUNK_SIZE,
                    )
                },
            forall|l: int|
                0 <= l < k && data_slot(data@, po as int, l) != DATA_SLOT_FREE ==> exists|j: int|
                    0 <= j < chunks@.len() && (#[trigger] chunks@[j].pos) == l,
        decreases DATA_PAGE_SLOTS - k,
    {
        let slot = data[po + PAGE_HEADER_SIZE + k];
        if slot != DATA_SLOT_FREE {
            let coff: usize = po + PAGE_HEADER_SIZE + DATA_PAGE_SLOTS + k * CHUNK_SIZE;
            proof {
                assert(coff + CHUNK_SIZE <= po + PAGE_SIZE);
            }
            let bytes = match read_bytes(data, coff, CHUNK_SIZE) {
                Ok(v) => v,
                Err(e) => { return Err(e); },
            };
            let ghost old_chunks = chunks@;
            chunks.push(DataChunk { pos: k, bytes });
            proof {
                assert(forall|j: int|
                    0 <= j < old_chunks.len() ==> chunks@[j] == old_chunks[j]);
                assert(chunks@[chunks@.len() - 1].pos == k);
                assert(forall|l: int|
                    0 <= l < k + 1 && data_slot(data@, po as int, l) != DATA_SLOT_FREE
                        ==> exists|j: int|
                        0 <= j < chunks@.len() && (#[trigger] chunks@[j].pos) == l);
            }
        }
        k = k + 1;
    }
    proof {
        assert(forall|k: int|
            0 <= k < DATA_PAGE_SLOTS && data_slot(data@, po as int, k) != DATA_SLOT_FREE
                ==> exists|j: int|
                0 <= j < chunks@.len() && (#[trigger] chunks@[j].pos) == k);
    }
    let p = DataPage { header, offset: po, chunks };
    proof {
        assert(page_header_matches(p.header, data@, po as int));
        assert(forall|j: int, l: int|
            0 <= j < l < p.chunks@.len() ==> (#[trigger] p.chunks@[j].pos) < (
            #[trigger] p.chunks@[l].pos));
        assert(forall|j: int|
            0 <= j < p.chunks@.len() ==> {
                let c = #[trigger] p.chunks@[j];
                &&& c.pos < DATA_PAGE_SLOTS
                &&& data_slot(data@, po as int, c.pos as int) != DATA_SLOT_FREE
                &&& c.bytes@ == data@.subrange(
                    data_chunk_off(po as int, c.pos as int),
                    data_chunk_off(po as int, c.pos as int) + CHUNK_SIZE,
                )
            });
        assert(forall|k: int|
            0 <= k < DATA_PAGE_SLOTS && data_slot(data@, po as int, k) != DATA_SLOT_FREE
                ==> exists|j: int|
                0 <= j < p.chunks@.len() && (#[trigger] p.chunks@[j].pos) == k);
        assert(data_page_matches(p, data@, po as int));
    }
    Ok(p)
}

/// What a decoded system page promises of the partition bytes: the slot
/// walk stopped at the end-of-list marker or ran through all slots; chunks
/// stand in slot order, exactly the occupied slots; each chunk's index is
/// the CRC chain value at its slot, and its stored CRC matches its payload
/// and that index.
pub open spec fn sys_page_matches(p: SysPage, s: Seq<u8>, po: int) -> bool {
    &&& page_header_matches(p.header, s, po)
    &&& p.slots_walked <= SYS_PAGE_SLOTS
    &&& forall|k: int| 0 <= k < p.slots_walked ==> sys_slot(s, po, k) != SLOT_END
    &&& (p.slots_walked < SYS_PAGE_SLOTS ==> sys_slot(s, po, p.slots_walked as int) == SLOT_END)
    &&& forall|j: int, l: int|
        0 <= j < l < p.chunks@.len() ==> (#[trigger] p.chunks@[j].pos) < (#[trigger] p.chunks@[l].pos)
    &&& forall|j: int|
        0 <= j < p.chunks@.len() ==> {
            let c = #[trigger] p.chunks@[j];
            &&& c.pos < p.slots_walked
            &&& c.pos < SYS_PAGE_CHUNKS
            &&& sys_slot(s, po, c.pos as int) != SLOT_FREE
            &&& c.idx == sys_idx_after(s, po, (c.pos + 1) as nat)
            &&& c.payload@ == s.subrange(
                sys_chunk_off(po, c.pos as int),
                sys_chunk_off(po, c.pos as int) + CHUNK_PAYLOAD,
            )
            &&& c.crc == le16_at(s, sys_chunk_off(po, c.pos as int) + CHUNK_PAYLOAD)
            &&& c.crc == chunk_crc(c.payload@, c.idx)
        }
    &&& forall|k: int|
        0 <= k < p.slots_walked && sys_slot(s, po, k) != SLOT_FREE ==> exists|j: int|
            0 <= j < p.chunks@.len() && (#[trigger] p.chunks@[j].pos) == k
}

/// Decodes the system page at `po`, walking its slots, deriving each
/// chunk's index through the CRC chain, and checking every chunk's CRC.
fn parse_sys_page(data: &Vec<u8>, po: usize, header: PageHeader) -> (r: Result<SysPage, MeError>)
    requires
        po + PAGE_SIZE <= data@.len(),
        page_header_matches(header, data@, po as int),
    ensures
        (r is Ok) <==> sys_page_ok(data@, po as int),
        r matches Ok(p) ==> {
            &&& p.offset == po
            &&& p.header == header
            &&& p.slots_walked == sys_stop(data@, po as int, 0)
            &&& sys_page_matches(p, data@, po as int)
        },
        r matches Err(e) ==> (e == MeError::ChunkChecksumFailed || e == MeError::Truncated),
{
    let _ = data.len();  // brings the length bound into scope
    let mut chunks: Vec<SysChunk> = Vec::new();
    let mut k: usize = 0;
    let mut idx: u16 = 0;
    let mut stop: bool = false;
    while k < SYS_PAGE_SLOTS && !stop
        invariant
            k <= SYS_PAGE_SLOTS,
            po + PAGE_SIZE <= data@.len(),
            data@.len() <= usize::MAX,
            idx == sys_idx_after(data@, po as int, k as nat),
            forall|l: int| 0 <= l < k ==> sys_slot(data@, po as int, l) != SLOT_END,
            stop ==> k < SYS_PAGE_SLOTS && sys_slot(data@, po as int, k as int) == SLOT_END,
            !stop ==> sys_stop(data@, po as int, 0) == sys_stop(data@, po as int, k as int),
            stop ==> sys_stop(data@, po as int, 0) == k,
            forall|j: int, l: int|
                0 <= j < l < chunks@.len() ==> (#[trigger] chunks@[j].pos) < (
                #[trigger] chunks@[l].pos),
            forall|j: int| 0 <= j < chunks@.len() ==> (#[trigger] chunks@[j].pos) < k,
            forall|j: int|
                0 <= j < chunks@.len() ==> {
                    let c = #[trigger] chunks@[j];
                    &&& c.pos < SYS_PAGE_CHUNKS
                    &&& sys_slot(data@, po as int, c.pos as int) != SLOT_FREE
                    &&& sys_slot(data@, po as int, c.pos as int) != SLOT_END
                    &&& c.idx == sys_idx_after(data@, po as int, (c.pos + 1) as nat)
                    &&& c.payload@ == data@.subrange(
                        sys_chunk_off(po as int, c.pos as int),
                        sys_chunk_off(po as int, c.pos as int) + CHUNK_PAYLOAD,
                    )
                    &&& c.crc == le16_at(
                        data@,
                        sys_chunk_off(po as int, c.pos as int) + CHUNK_PAYLOAD,
                    )
                    &&& c.crc == chunk_crc(c.payload@, c.idx)
                },
            forall|l: int|
                0 <= l < k && sys_slot(data@, po as int, l) != SLOT_FREE ==> exists|j: int|
                    0 <= j < chunks@.len() && (#[trigger] chunks@[j].pos) == l,
        decreases SYS_PAGE_SLOTS - k, (if stop { 0int } else { 1int }),
    {
        let slot = match read_u16(data, po + PAGE_HEADER_SIZE + 2 * k) {
            Ok(v) => v,
            Err(e) => { return Err(MeError::Truncated); },
        };
        if slot == SLOT_END {
            proof {
                assert(sys_stop(data@, po as int, k as int) == k);
            }
            stop = true;
        } else {
            if slot != SLOT_FREE {
                if k >= SYS_PAGE_CHUNKS {
                    // The last slot can only end the list; a chunk there
                    // would lie beyond the page.
                    proof {
                        assert(sys_stop(data@, po as int, k as int) == sys_stop(
                            data@,
                            po as int,
                            k + 1,
                        ));
                        lemma_sys_stop_bounds(data@, po as int, k + 1);
                        assert(k < sys_stop(data@, po as int, 0));
                        assert(!sys_page_ok(data@, po as int));
                    }
                    return Err(MeError::Truncated);
                }
                let new_idx = next_chunk_index(idx, slot);
                let coff: usize = po + PAGE_HEADER_SIZE + 2 * SYS_PAGE_SLOTS + k * CHUNK_SIZE;
                proof {
                    assert(coff + CHUNK_SIZE <= po + PAGE_SIZE);
                }
                let payload = match read_bytes(data, coff, CHUNK_PAYLOAD) {
                    Ok(v) => v,
                    Err(e) => { return Err(MeError::Truncated); },
                };
                let crc = match read_u16(data, coff + CHUNK_PAYLOAD) {
                    Ok(v) => v,
                    Err(e) => { return Err(MeError::Truncated); },
                };
                let computed = compute_chunk_crc(&payload, new_idx);
                if computed != crc {
                    proof {
                        assert(sys_stop(data@, po as int, k as int) == sys_stop(
                            data@,
                            po as int,
                            k + 1,
                        ));
                        lemma_sys_stop_bounds(data@, po as int, k + 1);
                        assert(k < sys_stop(data@, po as int, 0));
                        assert(le16_at(data@, sys_chunk_off(po as int, k as int) + CHUNK_PAYLOAD)
                            != chunk_crc(
                            data@.subrange(
                                sys_chunk_off(po as int, k as int),
                                sys_chunk_off(po as int, k as int) + CHUNK_PAYLOAD,
                            ),
                            sys_idx_after(data@, po as int, (k + 1) as nat),
                        ));
                        assert(!sys_page_ok(data@, po as int));
                    }
                    return Err(MeError::ChunkChecksumFailed);
                }
                let ghost old_chunks = chunks@;
                chunks.push(SysChunk { pos: k, idx: new_idx, payload, crc });
                proof {
                    assert(forall|j: int|
                        0 <= j < old_chunks.len() ==> chunks@[j] == old_chunks[j]);
                    assert(chunks@[chunks@.len() - 1].pos == k);
                    assert(forall|l: int|
                        0 <= l < k + 1 && sys_slot(data@, po as int, l) != SLOT_FREE
                            ==> exists|j: int|
                            0 <= j < chunks@.len() && (#[trigger] chunks@[j].pos) == l);
                }
                idx = new_idx;
            }
            proof {
                assert(sys_stop(data@, po as int, k as int) == sys_stop(data@, po as int, k + 1));
            }
            k = k + 1;
        }
    }
    let slots_walked = k;
    proof {
        if !stop {
            assert(sys_stop(data@, po as int, 121) == 121);
        }
        assert(slots_walked == sys_stop(data@, po as int, 0));
    }
    proof {
        assert(forall|l: int|
            0 <= l < slots_walked && sys_slot(data@, po as int, l) != SLOT_FREE ==> exists|j: int|
                0 <= j < chunks@.len() && (#[trigger] chunks@[j].pos) == l);
    }
    let p = SysPage { header, offset: po, slots_walked, chunks };
    proof {
        assert(page_header_matches(p.header, data@, po as int));
        assert(forall|l: int| 0 <= l < p.slots_walked ==> sys_slot(data@, po as int, l) != SLOT_END);
        assert(forall|j: int, l: int|
            0 <= j < l < p.chunks@.len() ==> (#[trigger] p.chunks@[j].pos) < (
            #[trigger] p.chunks@[l].pos));
        assert(forall|j: int|
            0 <= j < p.chunks@.len() ==> {
                let c = #[trigger] p.chunks@[j];
                &&& c.pos < p.slots_walked
                &&& c.pos < SYS_PAGE_CHUNKS
                &&& sys_slot(data@, po as int, c.pos as int) != SLOT_FREE
                &&& c.idx == sys_idx_after(data@, po as int, (c.pos + 1) as nat)
                &&& c.payload@ == data@.subrange(
                    sys_chunk_off(po as int, c.pos as int),
                    sys_chunk_off(po as int, c.pos as int) + CHUNK_PAYLOAD,
                )
                &&& c.crc == le16_at(data@, sys_chunk_off(po as int, c.pos as int) + CHUNK_PAYLOAD)
                &&& c.crc == chunk_crc(c.payload@, c.idx)
            });
        assert(forall|l: int|
            0 <= l < p.slots_walked && sys_slot(data@, po as int, l) != SLOT_FREE ==> exists|j: int|
                0 <= j < p.chunks@.len() && (#[trigger] p.chunks@[j].pos) == l);
        assert(sys_page_matches(p, data@, po as int));
        assert forall|l: int|
            0 <= l < sys_stop(data@, po as int, 0) && (#[trigger] sys_slot(data@, po as int, l))
                != SLOT_FREE implies l < SYS_PAGE_CHUNKS && le16_at(
            data@,
            sys_chunk_off(po as int, l) + CHUNK_PAYLOAD,
        ) == chunk_crc(
            data@.subrange(sys_chunk_off(po as int, l), sys_chunk_off(po as int, l) + CHUNK_PAYLOAD),
            sys_idx_after(data@, po as int, (l + 1) as nat),
        ) by {
            assert(exists|j: int|
                0 <= j < p.chunks@.len() && (#[trigger] p.chunks@[j].pos) == l);
            let j0 = choose|j: int| 0 <= j < p.chunks@.len() && (#[trigger] p.chunks@[j].pos) == l;
            assert(p.chunks@[j0].crc == chunk_crc(p.chunks@[j0].payload@, p.chunks@[j0].idx));
        }
        assert(sys_page_ok(data@, po as int));
    }
    Ok(p)
}

/// Whether page `i` of the partition is blank: its first word is not the
/// page magic.
pub open spec fn page_is_blank(s: Seq<u8>, i: int) -> bool {
    le32_at(s, i * PAGE_SIZE) != PAGE_MAGIC
}

/// How many of the first `n` pages are blank.
pub open spec fn blank_count(s: Seq<u8>, n: nat) -> nat
    decreases n,
{
    if n == 0 {
        0
    } else {
        blank_count(s, (n - 1) as nat) + if page_is_blank(s, n - 1) {
            1nat
        } else {
            0nat
        }
    }
}

/// Blank pages only accumulate as more pages are counted.
pub proof fn lemma_blank_count_mono(s: Seq<u8>, k: nat, m: nat)
    requires
        k <= m,
    ensures
        blank_count(s, k) <= blank_count(s, m),
    decreases m,
{
    if k < m {
        lemma_blank_count_mono(s, k, (m - 1) as nat);
    }
}

/// The page-level stage of decoding a Gen 3 partition succeeds: a whole
/// positive number of pages, exactly one of them blank, and the slot walk
/// of every system page — non-blank, first chunk zero — checks out.
pub open spec fn gen3_pages_ok(s: Seq<u8>) -> bool {
    &&& s.len() > 0
    &&& s.len() % PAGE_SIZE as nat == 0
    &&& blank_count(s, s.len() / PAGE_SIZE as nat) == 1
    &&& forall|i: int|
        0 <= i < s.len() / PAGE_SIZE as nat && !page_is_blank(s, i) && le16_at(
            s,
            #[trigger] (i * PAGE_SIZE) + 14,
        ) == 0 ==> sys_page_ok(s, i * PAGE_SIZE)
}

/// What page classification promises: sizes and the blank count check
/// out, every listed page is decoded from its image offset, and every
/// non-blank page of the image is listed.
pub open spec fn classified_ok(sys: Seq<SysPage>, dat: Seq<DataPage>, s: Seq<u8>) -> bool {
    let n_pages = s.len() / PAGE_SIZE as nat;
    &&& s.len() % PAGE_SIZE as nat == 0
    &&& n_pages >= 1
    &&& blank_count(s, n_pages) == 1
    &&& forall|ii: int|
        0 <= ii < n_pages && !page_is_blank(s, ii) && le16_at(s, #[trigger] (ii * PAGE_SIZE) + 14)
            == 0 ==> exists|j: int|
            0 <= j < sys.len() && (#[trigger] sys[j]).offset == ii * PAGE_SIZE
    &&& forall|ii: int|
        0 <= ii < n_pages && !page_is_blank(s, ii) && le16_at(s, #[trigger] (ii * PAGE_SIZE) + 14)
            != 0 ==> exists|j: int|
            0 <= j < dat.len() && (#[trigger] dat[j]).offset == ii * PAGE_SIZE
    &&& forall|j: int|
        0 <= j < sys.len() ==> {
            let p = #[trigger] sys[j];
            &&& p.offset + PAGE_SIZE <= s.len()
            &&& (p.offset as int) % (PAGE_SIZE as int) == 0
            &&& le32_at(s, p.offset as int) == PAGE_MAGIC
            &&& sys_page_matches(p, s, p.offset as int)
            &&& p.header.first_chunk == 0
        }
    &&& forall|j: int|
        0 <= j < dat.len() ==> {
            let p = #[trigger] dat[j];
            &&& p.offset + PAGE_SIZE <= s.len()
            &&& (p.offset as int) % (PAGE_SIZE as int) == 0
            &&& le32_at(s, p.offset as int) == PAGE_MAGIC
            &&& data_page_matches(p, s, p.offset as int)
            &&& p.header.first_chunk > 0
        }
}

/// Whether some page of the partition is a data page: non-blank, with a
/// positive first chunk index.
pub open spec fn has_data_page(s: Seq<u8>) -> bool {
    exists|ii: int|
        0 <= ii < s.len() / PAGE_SIZE as nat && !page_is_blank(s, ii) && le16_at(
            s,
            #[trigger] (ii * PAGE_SIZE) + 14,
        ) != 0
}

/// Classifies the pages of a partition into system and data pages; exactly
/// one page must be blank.
#[verifier::rlimit(100)]
#[verifier::spinoff_prover]
fn classify_pages(data: &Vec<u8>) -> (r: Result<(Vec<SysPage>, Vec<DataPage>), MeError>)
    ensures
        (r is Ok) <==> gen3_pages_ok(data@),
        data@.len() == 0 || data@.len() % PAGE_SIZE as nat != 0 ==> r == Err::<
            (Vec<SysPage>, Vec<DataPage>),
            MeError,
        >(MeError::Truncated),
        r matches Ok(pp) ==> classified_ok(pp.0@, pp.1@, data@),
{
    let total = data.len();
    if total == 0 || total % PAGE_SIZE != 0 {
        return Err(MeError::Truncated);
    }
    let n_pages = total / PAGE_SIZE;
    proof {
        vstd::arithmetic::div_mod::lemma_fundamental_div_mod(total as int, PAGE_SIZE as int);
    }
    let mut sys_pages: Vec<SysPage> = Vec::new();
    let mut data_pages: Vec<DataPage> = Vec::new();
    let mut blanks: usize = 0;
    let mut i: usize = 0;
    while i < n_pages
        invariant
            i <= n_pages,
            total == data@.len(),
            total <= usize::MAX,
            n_pages * PAGE_SIZE == total,
            blanks == blank_count(data@, i as nat),
            blanks <= 1,
            n_pages == data@.len() / PAGE_SIZE as nat,
            data@.len() % PAGE_SIZE as nat == 0,
            data@.len() > 0,
            forall|ii: int|
                0 <= ii < i && !page_is_blank(data@, ii) && le16_at(
                    data@,
                    #[trigger] (ii * PAGE_SIZE) + 14,
                ) == 0 ==> sys_page_ok(data@, ii * PAGE_SIZE),
            forall|ii: int|
                0 <= ii < i && !page_is_blank(data@, ii) && le16_at(
                    data@,
                    #[trigger] (ii * PAGE_SIZE) + 14,
                ) == 0 ==> exists|j: int|
                    0 <= j < sys_pages@.len() && (#[trigger] sys_pages@[j]).offset == ii
                        * PAGE_SIZE,
            forall|ii: int|
                0 <= ii < i && !page_is_blank(data@, ii) && le16_at(
                    data@,
                    #[trigger] (ii * PAGE_SIZE) + 14,
                ) != 0 ==> exists|j: int|
                    0 <= j < data_pages@.len() && (#[trigger] data_pages@[j]).offset == ii
                        * PAGE_SIZE,
            forall|j: int|
                0 <= j < sys_pages@.len() ==> {
                    let p = #[trigger] sys_pages@[j];
                    &&& p.offset + PAGE_SIZE <= data@.len()
                    &&& (p.offset as int) % (PAGE_SIZE as int) == 0
                    &&& le32_at(data@, p.offset as int) == PAGE_MAGIC
                    &&& sys_page_matches(p, data@, p.offset as int)
                    &&& p.header.first_chunk == 0
                },
            forall|j: int|
                0 <= j < data_pages@.len() ==> {
                    let p = #[trigger] data_pages@[j];
                    &&& p.offset + PAGE_SIZE <= data@.len()
                    &&& (p.offset as int) % (PAGE_SIZE as int) == 0
                    &&& le32_at(data@, p.offset as int) == PAGE_MAGIC
                    &&& data_page_matches(p, data@, p.offset as int)
                    &&& p.header.first_chunk > 0
                },
        decreases n_pages - i,
    {
        proof {
            assert((i + 1) * PAGE_SIZE <= n_pages * PAGE_SIZE) by (nonlinear_arith)
                requires
                    i + 1 <= n_pages,
            ;
            assert(i * PAGE_SIZE + PAGE_SIZE == (i + 1) * PAGE_SIZE) by (nonlinear_arith);
        }
        let po: usize = i * PAGE_SIZE;
        proof {
            assert((po as int) % (PAGE_SIZE as int) == 0) by (nonlinear_arith)
                requires
                    po == i * PAGE_SIZE,
            ;
        }
        let magic = read_u32(data, po).unwrap();
        if magic != PAGE_MAGIC {
            // A page without the magic is the volume's one blank page.
            if blanks >= 1 {
                proof {
                    assert(blank_count(data@, (i + 1) as nat) >= 2);
                    lemma_blank_count_mono(data@, (i + 1) as nat, n_pages as nat);
                    assert(!gen3_pages_ok(data@));
                }
                return Err(MeError::MultipleBlankPages);
            }
            blanks = blanks + 1;
        } else {
            let header = read_page_header(data, po).unwrap();
            if header.first_chunk > 0 {
                let p = match parse_data_page(data, po, header) {
                    Ok(p) => p,
                    Err(e) => { return Err(e); },
                };
                let ghost pre_dp = data_pages@;
                data_pages.push(p);
                proof {
                    assert(data_pages@[pre_dp.len() as int].offset == i * PAGE_SIZE);
                    assert(forall|j: int| 0 <= j < pre_dp.len() ==> data_pages@[j] == pre_dp[j]);
                }
            } else {
                let p = match parse_sys_page(data, po, header) {
                    Ok(p) => p,
                    Err(e) => {
                        proof {
                            assert(!page_is_blank(data@, i as int));
                            assert(le16_at(data@, i as int * PAGE_SIZE + 14) == 0);
                            assert(!sys_page_ok(data@, i as int * PAGE_SIZE));
                            assert(!gen3_pages_ok(data@));
                        }
                        return Err(e);
                    },
                };
                proof {
                    assert(sys_page_ok(data@, i as int * PAGE_SIZE));
                }
                let ghost pre_sp = sys_pages@;
                sys_pages.push(p);
                proof {
                    assert(sys_pages@[pre_sp.len() as int].offset == i * PAGE_SIZE);
                    assert(forall|j: int| 0 <= j < pre_sp.len() ==> sys_pages@[j] == pre_sp[j]);
                }
            }
        }
        i = i + 1;
    }
    if blanks == 0 {
        proof {
            assert(!gen3_pages_ok(data@));
        }
        return Err(MeError::MissingBlankPage);
    }
    proof {
        assert(gen3_pages_ok(data@));
    }
    let ghost sps = sys_pages@;
    let ghost dps = data_pages@;
    let pp = (sys_pages, data_pages);
    proof {
        assert(pp.0@ == sps);
        assert(pp.1@ == dps);
        let n = data@.len() / PAGE_SIZE as nat;
        assert forall|ii: int|
            0 <= ii < n && !page_is_blank(data@, ii) && le16_at(
                data@,
                #[trigger] (ii * PAGE_SIZE) + 14,
            ) == 0 implies exists|j: int|
            0 <= j < pp.0@.len() && (#[trigger] pp.0@[j]).offset == ii * PAGE_SIZE by {
            assert(exists|j: int|
                0 <= j < sps.len() && (#[trigger] sps[j]).offset == ii * PAGE_SIZE);
            let j0 = choose|j: int|
                0 <= j < sps.len() && (#[trigger] sps[j]).offset == ii * PAGE_SIZE;
            assert(pp.0@[j0] == sps[j0]);
        }
        assert forall|ii: int|
            0 <= ii < n && !page_is_blank(data@, ii) && le16_at(
                data@,
                #[trigger] (ii * PAGE_SIZE) + 14,
            ) != 0 implies exists|j: int|
            0 <= j < pp.1@.len() && (#[trigger] pp.1@[j]).offset == ii * PAGE_SIZE by {
            assert(exists|j: int|
                0 <= j < dps.len() && (#[trigger] dps[j]).offset == ii * PAGE_SIZE);
            let j0 = choose|j: int|
                0 <= j < dps.len() && (#[trigger] dps[j]).offset == ii * PAGE_SIZE;
            assert(pp.1@[j0] == dps[j0]);
        }
        assert(forall|j: int|
            0 <= j < pp.0@.len() ==> {
                let p = #[trigger] pp.0@[j];
                &&& p.offset + PAGE_SIZE <= data@.len()
                &&& sys_page_matches(p, data@, p.offset as int)
                &&& p.header.first_chunk == 0
            });
        assert(forall|j: int|
            0 <= j < pp.1@.len() ==> {
                let p = #[trigger] pp.1@[j];
                &&& p.offset + PAGE_SIZE <= data@.len()
                &&& data_page_matches(p, data@, p.offset as int)
                &&& p.header.first_chunk > 0
            });
        assert(classified_ok(pp.0@, pp.1@, data@));
    }
    Ok(pp)
}

/// Copies a byte vector.
fn copy_bytes(v: &Vec<u8>) -> (r: Vec<u8>)
    ensures
        r@ == v@,
{
    let mut out: Vec<u8> = Vec::new();
    let mut i: usize = 0;
    while i < v.len()
        invariant
            i <= v@.len(),
            out@ == v@.subrange(0, i as int),
        decreases v@.len() - i,
    {
        out.push(v[i]);
        i = i + 1;
        proof {
            assert(out@ =~= v@.subrange(0, i as int));
        }
    }
    proof {
        assert(v@.subrange(0, v@.len() as int) =~= v@);
    }
    out
}

/// The smallest `first_chunk` among the data pages: the number of system
/// chunks of the volume.
fn min_first_chunk(pages: &Vec<DataPage>) -> (r: u16)
    requires
        pages@.len() > 0,
    ensures
        exists|j: int| 0 <= j < pages@.len() && r == (#[trigger] pages@[j]).header.first_chunk,
        forall|j: int| 0 <= j < pages@.len() ==> r <= (#[trigger] pages@[j]).header.first_chunk,
{
    let mut r: u16 = pages[0].header.first_chunk;
    let mut j: usize = 1;
    while j < pages.len()
        invariant
            1 <= j <= pages@.len(),
            exists|l: int| 0 <= l < j && r == (#[trigger] pages@[l]).header.first_chunk,
            forall|l: int| 0 <= l < j ==> r <= (#[trigger] pages@[l]).header.first_chunk,
        decreases pages@.len() - j,
    {
        if pages[j].header.first_chunk < r {
            r = pages[j].header.first_chunk;
        }
        j = j + 1;
    }
    r
}

/// Orders the data pages by `first_chunk` and spreads their chunks into
/// one array indexed by `chunk_index - n_sys`.
///
/// The `k`-th data page in first-chunk order must satisfy
/// `first_chunk == n_sys + 122 * k`, and no chunk index may appear twice.
fn place_data_pages(pages: Vec<DataPage>, n_sys: u16, img: Ghost<Seq<u8>>) -> (r: Result<
    (Vec<DataPage>, Vec<Option<Vec<u8>>>),
    MeError,
>)
    requires
        forall|j: int|
            0 <= j < pages@.len() ==> {
                let p = #[trigger] pages@[j];
                &&& data_page_matches(p, img@, p.offset as int)
                &&& p.offset + PAGE_SIZE <= img@.len()
                &&& p.header.first_chunk >= n_sys
            },
    ensures
        r matches Ok(pp) ==> {
            &&& pp.0@.len() == pages@.len()
            &&& forall|k: int|
                0 <= k < pp.0@.len() ==> (#[trigger] pp.0@[k]).header.first_chunk == n_sys + 122 * k
            &&& forall|k: int|
                0 <= k < pp.0@.len() ==> {
                    let p = #[trigger] pp.0@[k];
                    &&& data_page_matches(p, img@, p.offset as int)
                    &&& p.offset + PAGE_SIZE <= img@.len()
                }
            &&& pp.1@.len() == 122 * pages@.len()
            &&& forall|i: int|
                0 <= i < pp.1@.len() && (#[trigger] pp.1@[i]) is Some ==> pp.1@[i]->0@.len()
                    == CHUNK_SIZE
        },
        r matches Err(e) ==> (e == MeError::DataPageOrderingViolation
            || e == MeError::DuplicateDataChunk),
{
    let ghost orig = pages@;
    let n = pages.len();
    let mut slots: Vec<Option<DataPage>> = Vec::new();
    let mut i: usize = 0;
    while i < n
        invariant
            i <= n,
            slots@.len() == i,
            forall|q: int| 0 <= q < i ==> (#[trigger] slots@[q]) is None,
        decreases n - i,
    {
        slots.push(None);
        i = i + 1;
    }
    let mut chunk_arr: Vec<Option<Vec<u8>>> = Vec::new();
    let mut i: usize = 0;
    if n > usize::MAX / 122 {
        return Err(MeError::DataPageOrderingViolation);
    }
    proof {
        assert(n * 122 <= usize::MAX) by (nonlinear_arith)
            requires
                n <= usize::MAX / 122,
        ;
    }
    let cap = n * 122;
    while i < cap
        invariant
            i <= cap,
            chunk_arr@.len() == i,
            forall|q: int| 0 <= q < i ==> (#[trigger] chunk_arr@[q]) is None,
        decreases cap - i,
    {
        chunk_arr.push(None);
        i = i + 1;
    }
    let mut pages = pages;
    while pages.len() > 0
        invariant
            pages@ == orig.subrange(0, pages@.len() as int),
            pages@.len() <= orig.len(),
            slots@.len() == n,
            n == orig.len(),
            n <= usize::MAX / 122,
            chunk_arr@.len() == 122 * n,
            forall|j: int|
                0 <= j < orig.len() ==> {
                    let p = #[trigger] orig[j];
                    &&& data_page_matches(p, img@, p.offset as int)
                    &&& p.offset + PAGE_SIZE <= img@.len()
                    &&& p.header.first_chunk >= n_sys
                },
            forall|q: int|
                0 <= q < n && (#[trigger] slots@[q]) is Some ==> {
                    let p = slots@[q]->0;
                    &&& p.header.first_chunk == n_sys + 122 * q
                    &&& data_page_matches(p, img@, p.offset as int)
                    &&& p.offset + PAGE_SIZE <= img@.len()
                },
            forall|idx: int|
                0 <= idx < chunk_arr@.len() && (#[trigger] chunk_arr@[idx]) is Some
                    ==> chunk_arr@[idx]->0@.len() == CHUNK_SIZE,
        decreases pages@.len(),
    {
        let p = pages.pop().unwrap();
        proof {
            assert(p == orig[pages@.len() as int]);
            assert(pages@ =~= orig.subrange(0, pages@.len() as int));
            assert(data_page_matches(p, img@, p.offset as int));
        }
        let fc = p.header.first_chunk;
        let d: u16 = fc - n_sys;
        let q: usize = (d / 122) as usize;
        let rem: u16 = d % 122;
        if rem != 0 || q >= n {
            return Err(MeError::DataPageOrderingViolation);
        }
        proof {
            assert(fc == n_sys + 122 * q) by (nonlinear_arith)
                requires
                    d == fc - n_sys,
                    q == d / 122,
                    d % 122 == 0,
                    fc >= n_sys,
            ;
        }
        if slots[q].is_some() {
            return Err(MeError::DataPageOrderingViolation);
        }
        // Spread the page's chunks into the shared array.
        let mut c: usize = 0;
        while c < p.chunks.len()
            invariant
                c <= p.chunks@.len(),
                n <= usize::MAX / 122,
                q < n,
                chunk_arr@.len() == 122 * n,
                data_page_matches(p, img@, p.offset as int),
                p.offset + PAGE_SIZE <= img@.len(),
                forall|idx: int|
                    0 <= idx < chunk_arr@.len() && (#[trigger] chunk_arr@[idx]) is Some
                        ==> chunk_arr@[idx]->0@.len() == CHUNK_SIZE,
            decreases p.chunks@.len() - c,
        {
            let pos = p.chunks[c].pos;
            proof {
                let po = p.offset as int;
                let cpos = p.chunks@[c as int].pos as int;
                assert(cpos < DATA_PAGE_SLOTS);
                assert(data_chunk_off(po, cpos) + CHUNK_SIZE <= po + PAGE_SIZE);
                assert(p.chunks@[c as int].bytes@.len() == CHUNK_SIZE);
                assert(q * 122 + pos < 122 * n) by (nonlinear_arith)
                    requires
                        q < n,
                        pos < 122,
                ;
            }
            let idx: usize = q * 122 + pos;
            if chunk_arr[idx].is_some() {
                return Err(MeError::DuplicateDataChunk);
            }
            let b = copy_bytes(&p.chunks[c].bytes);
            chunk_arr[idx] = Some(b);
            c = c + 1;
        }
        slots[q] = Some(p);
    }
    // Every slot must now hold its page; a hole would mean a first-chunk
    // value was repeated or out of range.
    let mut sorted: Vec<DataPage> = Vec::new();
    let mut k: usize = 0;
    while k < n
        invariant
            k <= n,
            slots@.len() == n,
            sorted@.len() == k,
            forall|q: int|
                0 <= q < n && (#[trigger] slots@[q]) is Some ==> {
                    let p = slots@[q]->0;
                    &&& p.header.first_chunk == n_sys + 122 * q
                    &&& data_page_matches(p, img@, p.offset as int)
                    &&& p.offset + PAGE_SIZE <= img@.len()
                },
            forall|l: int|
                0 <= l < k ==> {
                    let p = #[trigger] sorted@[l];
                    &&& p.header.first_chunk == n_sys + 122 * l
                    &&& data_page_matches(p, img@, p.offset as int)
                    &&& p.offset + PAGE_SIZE <= img@.len()
                },
        decreases n - k,
    {
        let ghost pre_slots = slots@;
        let mut taken: Option<DataPage> = None;
        core::mem::swap(&mut taken, &mut slots[k]);
        proof {
            assert(taken == pre_slots[k as int]);
        }
        match taken {
            Some(p) => {
                proof {
                    assert(pre_slots[k as int] is Some);
                    assert(p == pre_slots[k as int]->0);
                }
                sorted.push(p);
            },
            None => {
                return Err(MeError::DataPageOrderingViolation);
            },
        }
        k = k + 1;
    }
    let pp = (sorted, chunk_arr);
    proof {
        assert(pp.0@.len() == orig.len());
        assert(forall|k: int|
            0 <= k < pp.0@.len() ==> (#[trigger] pp.0@[k]).header.first_chunk == n_sys + 122 * k);
        assert(forall|k: int|
            0 <= k < pp.0@.len() ==> {
                let p = #[trigger] pp.0@[k];
                &&& data_page_matches(p, img@, p.offset as int)
                &&& p.offset + PAGE_SIZE <= img@.len()
            });
        assert(pp.1@.len() == 122 * orig.len());
        assert(forall|i: int|
            0 <= i < pp.1@.len() && (#[trigger] pp.1@[i]) is Some ==> pp.1@[i]->0@.len()
                == CHUNK_SIZE);
    }
    Ok(pp)
}

/// No system chunk with derived index `i` was written under a USN above
/// `u`.
pub open spec fn usn_dominates(pages: Seq<SysPage>, i: int, u: u32) -> bool {
    forall|j: int, c: int|
        0 <= j < pages.len() && 0 <= c < pages[j].chunks@.len() && (#[trigger] pages[j].chunks@[c]).idx
            == i ==> pages[j].header.usn <= u
}

/// A payload at index `i` of the merged system chunks is the payload of a
/// system chunk with that derived index whose page's update sequence
/// number no other write of that index exceeds: the replay keeps the
/// latest write.
pub open spec fn winner_from_pages(pages: Seq<SysPage>, i: int, payload: Seq<u8>) -> bool {
    exists|j: int, c: int|
        0 <= j < pages.len() && 0 <= c < pages[j].chunks@.len() && (#[trigger] pages[j].chunks@[c]).idx
            == i && pages[j].chunks@[c].payload@ == payload && usn_dominates(
            pages,
            i,
            pages[j].header.usn,
        )
}

/// Whether any system chunk carries derived index `i`.
pub open spec fn sys_chunk_present(pages: Seq<SysPage>, i: int) -> bool {
    exists|j: int, c: int|
        0 <= j < pages.len() && 0 <= c < pages[j].chunks@.len() && (#[trigger] pages[j].chunks@[c]).idx
            == i
}

/// Replays the system pages' chunks in update-sequence order: for each
/// derived index below `n_sys`, the payload written under the highest USN
/// (and, within a page, the latest slot) wins. Every index must lie below
/// `n_sys`.
fn merge_sys_chunks(sys_pages: &Vec<SysPage>, n_sys: u16) -> (r: Result<
    Vec<Option<Vec<u8>>>,
    MeError,
>)
    requires
        forall|j: int, c: int|
            0 <= j < sys_pages@.len() && 0 <= c < sys_pages@[j].chunks@.len()
                ==> (#[trigger] sys_pages@[j].chunks@[c]).payload@.len() == CHUNK_PAYLOAD,
    ensures
        r matches Ok(w) ==> {
            &&& w@.len() == n_sys
            &&& forall|i: int|
                0 <= i < w@.len() && (#[trigger] w@[i]) is Some ==> w@[i]->0@.len()
                    == CHUNK_PAYLOAD
            &&& forall|i: int|
                0 <= i < w@.len() && (#[trigger] w@[i]) is Some ==> winner_from_pages(
                    sys_pages@,
                    i,
                    w@[i]->0@,
                )
            &&& forall|j: int, c: int|
                0 <= j < sys_pages@.len() && 0 <= c < sys_pages@[j].chunks@.len()
                    ==> (#[trigger] sys_pages@[j].chunks@[c]).idx < n_sys
            &&& forall|j: int, c: int|
                0 <= j < sys_pages@.len() && 0 <= c < sys_pages@[j].chunks@.len() ==> w@[(
                #[trigger] sys_pages@[j].chunks@[c]).idx as int] is Some
        },
        r matches Err(e) ==> e == MeError::SystemChunkOutOfRange,
{
    let mut winners: Vec<Option<Vec<u8>>> = Vec::new();
    let mut usns: Vec<u32> = Vec::new();
    let mut i: usize = 0;
    let n = n_sys as usize;
    while i < n
        invariant
            i <= n,
            winners@.len() == i,
            usns@.len() == i,
            forall|q: int| 0 <= q < i ==> (#[trigger] winners@[q]) is None,
        decreases n - i,
    {
        winners.push(None);
        usns.push(0);
        i = i + 1;
    }
    let mut j: usize = 0;
    while j < sys_pages.len()
        invariant
            j <= sys_pages@.len(),
            winners@.len() == n,
            usns@.len() == n,
            n == n_sys,
            forall|jj: int, c: int|
                0 <= jj < sys_pages@.len() && 0 <= c < sys_pages@[jj].chunks@.len()
                    ==> (#[trigger] sys_pages@[jj].chunks@[c]).payload@.len() == CHUNK_PAYLOAD,
            forall|q: int|
                0 <= q < n && (#[trigger] winners@[q]) is Some ==> winners@[q]->0@.len()
                    == CHUNK_PAYLOAD,
            forall|q: int|
                0 <= q < n && (#[trigger] winners@[q]) is Some ==> exists|jj: int, cc: int|
                    0 <= jj < j && 0 <= cc < sys_pages@[jj].chunks@.len() && (
                    #[trigger] sys_pages@[jj].chunks@[cc]).idx == q
                        && sys_pages@[jj].chunks@[cc].payload@ == winners@[q]->0@
                        && sys_pages@[jj].header.usn == usns@[q],
            forall|q: int, jj: int, cc: int|
                0 <= q < n && (#[trigger] winners@[q]) is Some && 0 <= jj < j && 0 <= cc
                    < sys_pages@[jj].chunks@.len() && (#[trigger] sys_pages@[jj].chunks@[cc]).idx
                    == q ==> sys_pages@[jj].header.usn <= usns@[q],
            forall|jj: int, cc: int|
                0 <= jj < j && 0 <= cc < sys_pages@[jj].chunks@.len() ==> winners@[(
                #[trigger] sys_pages@[jj].chunks@[cc]).idx as int] is Some,
            forall|jj: int, cc: int|
                0 <= jj < j && 0 <= cc < sys_pages@[jj].chunks@.len()
                    ==> (#[trigger] sys_pages@[jj].chunks@[cc]).idx < n_sys,
        decreases sys_pages@.len() - j,
    {
        let page_usn = sys_pages[j].header.usn;
        let mut c: usize = 0;
        while c < sys_pages[j].chunks.len()
            invariant
                j < sys_pages@.len(),
                c <= sys_pages@[j as int].chunks@.len(),
                winners@.len() == n,
                usns@.len() == n,
                n == n_sys,
                page_usn == sys_pages@[j as int].header.usn,
                forall|jj: int, cc: int|
                    0 <= jj < sys_pages@.len() && 0 <= cc < sys_pages@[jj].chunks@.len()
                        ==> (#[trigger] sys_pages@[jj].chunks@[cc]).payload@.len()
                        == CHUNK_PAYLOAD,
                forall|q: int|
                    0 <= q < n && (#[trigger] winners@[q]) is Some ==> winners@[q]->0@.len()
                        == CHUNK_PAYLOAD,
                forall|q: int|
                    0 <= q < n && (#[trigger] winners@[q]) is Some ==> exists|jj: int, cc: int|
                        0 <= jj < sys_pages@.len() && (jj < j || (jj == j && cc < c)) && 0 <= cc
                            < sys_pages@[jj].chunks@.len() && (
                        #[trigger] sys_pages@[jj].chunks@[cc]).idx == q
                            && sys_pages@[jj].chunks@[cc].payload@ == winners@[q]->0@
                            && sys_pages@[jj].header.usn == usns@[q],
                forall|q: int, jj: int, cc: int|
                    0 <= q < n && (#[trigger] winners@[q]) is Some && 0 <= jj < sys_pages@.len()
                        && (jj < j || (jj == j && cc < c)) && 0 <= cc
                        < sys_pages@[jj].chunks@.len() && (
                    #[trigger] sys_pages@[jj].chunks@[cc]).idx == q
                        ==> sys_pages@[jj].header.usn <= usns@[q],
                forall|jj: int, cc: int|
                    0 <= jj < sys_pages@.len() && (jj < j || (jj == j && cc < c)) && 0 <= cc
                        < sys_pages@[jj].chunks@.len() ==> winners@[(
                    #[trigger] sys_pages@[jj].chunks@[cc]).idx as int] is Some,
                forall|jj: int, cc: int|
                    0 <= jj < sys_pages@.len() && (jj < j || (jj == j && cc < c)) && 0 <= cc
                        < sys_pages@[jj].chunks@.len()
                        ==> (#[trigger] sys_pages@[jj].chunks@[cc]).idx < n_sys,
            decreases sys_pages@[j as int].chunks@.len() - c,
        {
            let idx = sys_pages[j].chunks[c].idx;
            if idx >= n_sys {
                return Err(MeError::SystemChunkOutOfRange);
            }
            let slot: usize = idx as usize;
            let replace: bool = match &winners[slot] {
                Option::Some(_) => usns[slot] <= page_usn,
                Option::None => true,
            };
            let ghost pre_w = winners@;
            let ghost pre_u = usns@;
            if replace {
                let b = copy_bytes(&sys_pages[j].chunks[c].payload);
                winners[slot] = Some(b);
                usns[slot] = page_usn;
                proof {
                    assert(sys_pages@[j as int].chunks@[c as int].idx == slot
                        && sys_pages@[j as int].chunks@[c as int].payload@ == winners@[slot as int]->0@);
                    assert(forall|q: int|
                        0 <= q < n && q != slot ==> winners@[q] == pre_w[q] && usns@[q]
                            == pre_u[q]);
                }
            } else {
                proof {
                    assert(winners@[slot as int] is Some && usns@[slot as int] > page_usn);
                }
            }
            c = c + 1;
        }
        j = j + 1;
    }
    Ok(winners)
}

/// Lays the merged system chunks out as one contiguous area of
/// `n_sys * 64` bytes; absent chunks read as zeroes.
fn build_sys_area(winners: &Vec<Option<Vec<u8>>>) -> (r: Vec<u8>)
    requires
        winners@.len() * CHUNK_PAYLOAD <= usize::MAX,
        forall|i: int|
            0 <= i < winners@.len() && (#[trigger] winners@[i]) is Some ==> winners@[i]->0@.len()
                == CHUNK_PAYLOAD,
    ensures
        r@.len() == winners@.len() * CHUNK_PAYLOAD,
        forall|i: int|
            0 <= i < winners@.len() ==> {
                let seg = r@.subrange(i * CHUNK_PAYLOAD, i * CHUNK_PAYLOAD + CHUNK_PAYLOAD);
                match #[trigger] winners@[i] {
                    Option::Some(b) => seg == b@,
                    Option::None => seg == Seq::<u8>::new(CHUNK_PAYLOAD as nat, |q: int| 0u8),
                }
            },
{
    let mut out: Vec<u8> = Vec::new();
    let mut i: usize = 0;
    while i < winners.len()
        invariant
            i <= winners@.len(),
            winners@.len() * CHUNK_PAYLOAD <= usize::MAX,
            forall|q: int|
                0 <= q < winners@.len() && (#[trigger] winners@[q]) is Some ==> winners@[q]->0@.len()
                    == CHUNK_PAYLOAD,
            out@.len() == i * CHUNK_PAYLOAD,
            forall|q: int|
                0 <= q < i ==> {
                    let seg = out@.subrange(q * CHUNK_PAYLOAD, q * CHUNK_PAYLOAD + CHUNK_PAYLOAD);
                    match #[trigger] winners@[q] {
                        Option::Some(b) => seg == b@,
                        Option::None => seg == Seq::<u8>::new(CHUNK_PAYLOAD as nat, |z: int| 0u8),
                    }
                },
        decreases winners@.len() - i,
    {
        proof {
            assert((i + 1) * CHUNK_PAYLOAD <= winners@.len() * CHUNK_PAYLOAD) by (nonlinear_arith)
                requires
                    i + 1 <= winners@.len(),
            ;
            assert(i * CHUNK_PAYLOAD + CHUNK_PAYLOAD == (i + 1) * CHUNK_PAYLOAD) by (nonlinear_arith);
        }
        let ghost pre = out@;
        match &winners[i] {
            Option::Some(b) => {
                let chunk = copy_bytes(b);
                let mut k: usize = 0;
                while k < CHUNK_PAYLOAD
                    invariant
                        k <= CHUNK_PAYLOAD,
                        chunk@ == winners@[i as int]->0@,
                        winners@[i as int] is Some,
                        winners@[i as int]->0@.len() == CHUNK_PAYLOAD,
                        i < winners@.len(),
                        out@ == pre + winners@[i as int]->0@.subrange(0, k as int),
                    decreases CHUNK_PAYLOAD - k,
                {
                    out.push(chunk[k]);
                    k = k + 1;
                    proof {
                        assert(out@ =~= pre + winners@[i as int]->0@.subrange(0, k as int));
                    }
                }
                proof {
                    assert(winners@[i as int]->0@.subrange(0, CHUNK_PAYLOAD as int)
                        =~= winners@[i as int]->0@);
                }
            },
            Option::None => {
                let mut k: usize = 0;
                while k < CHUNK_PAYLOAD
                    invariant
                        k <= CHUNK_PAYLOAD,
                        out@ == pre + Seq::<u8>::new(k as nat, |z: int| 0u8),
                        pre.len() + CHUNK_PAYLOAD <= usize::MAX,
                    decreases CHUNK_PAYLOAD - k,
                {
                    out.push(0);
                    k = k + 1;
                    proof {
                        assert(out@ =~= pre + Seq::<u8>::new(k as nat, |z: int| 0u8));
                    }
                }
            },
        }
        i = i + 1;
        proof {
            assert(out@.len() == i * CHUNK_PAYLOAD);
            assert forall|q: int| 0 <= q < i - 1 implies out@.subrange(
                #[trigger] (q * CHUNK_PAYLOAD),
                q * CHUNK_PAYLOAD + CHUNK_PAYLOAD,
            ) == pre.subrange(q * CHUNK_PAYLOAD, q * CHUNK_PAYLOAD + CHUNK_PAYLOAD) by {
                assert(q * CHUNK_PAYLOAD + CHUNK_PAYLOAD <= pre.len()) by (nonlinear_arith)
                    requires
                        q + 1 <= i - 1,
                        0 <= q,
                        pre.len() == (i - 1) * CHUNK_PAYLOAD,
                ;
                assert(out@.subrange(q * CHUNK_PAYLOAD, q * CHUNK_PAYLOAD + CHUNK_PAYLOAD)
                    =~= pre.subrange(q * CHUNK_PAYLOAD, q * CHUNK_PAYLOAD + CHUNK_PAYLOAD));
            }
            assert(out@.subrange((i - 1) * CHUNK_PAYLOAD, (i - 1) * CHUNK_PAYLOAD + CHUNK_PAYLOAD)
                =~= out@.subrange(pre.len() as int, out@.len() as int));
        }
    }
    out
}

/// The FAT value that marks an unused file index.
pub const FAT_NO_FILE: u16 = 0x0000;

/// The FAT value that marks an empty file.
pub const FAT_EMPTY: u16 = 0xFFFF;

/// The magic of the volume header in chunk 0 of the system area.
pub const VOLUME_MAGIC: u32 = 0x724F_6201;

/// The size of the volume header in bytes; the FAT follows it.
pub const VOLUME_HEADER_SIZE: usize = 14;

/// The views of a chunk array's entries.
pub open spec fn chunk_views(v: Seq<Option<Vec<u8>>>) -> Seq<Option<Seq<u8>>> {
    Seq::new(
        v.len(),
        |i: int|
            match v[i] {
                Option::Some(b) => Option::Some(b@),
                Option::None => Option::None,
            },
    )
}

/// The bytes of the file whose chain starts at FAT entry `h`, or `None`
/// when the chain is broken: a pointer outside `[files, fat.len())`, an
/// absent or malformed chunk, or more steps than `fuel`.
///
/// Chunk `h` contributes its first 64 bytes; when `fat[h]` lies in
/// `(0, 66]` the chain ends and chunk `h` contributes that many bytes
/// instead, the tail of the file.
pub open spec fn file_seq(
    fat: Seq<u16>,
    chunks: Seq<Option<Seq<u8>>>,
    files: int,
    h: int,
    fuel: nat,
) -> Option<Seq<u8>>
    decreases fuel,
{
    if fuel == 0 {
        Option::None
    } else if !(files <= h < fat.len()) {
        Option::None
    } else if h - files >= chunks.len() || chunks[h - files] is None {
        Option::None
    } else {
        let c = chunks[h - files]->0;
        if c.len() != CHUNK_SIZE {
            Option::None
        } else {
            let next = fat[h] as int;
            if 0 < next <= CHUNK_SIZE {
                Option::Some(c.subrange(0, next))
            } else {
                match file_seq(fat, chunks, files, next, (fuel - 1) as nat) {
                    Option::Some(rest) => Option::Some(
                        c.subrange(0, CHUNK_PAYLOAD as int) + rest,
                    ),
                    Option::None => Option::None,
                }
            }
        }
    }
}

/// A file is never empty and never longer than a full chunk per step of
/// fuel: iterating the FAT terminates within the chain bound.
pub proof fn lemma_file_seq_bounds(
    fat: Seq<u16>,
    chunks: Seq<Option<Seq<u8>>>,
    files: int,
    h: int,
    fuel: nat,
)
    requires
        file_seq(fat, chunks, files, h, fuel) is Some,
    ensures
        1 <= file_seq(fat, chunks, files, h, fuel)->0.len() <= CHUNK_PAYLOAD * (fuel - 1)
            + CHUNK_SIZE,
    decreases fuel,
{
    let next = fat[h] as int;
    if !(0 < next <= CHUNK_SIZE) {
        lemma_file_seq_bounds(fat, chunks, files, next, (fuel - 1) as nat);
    }
}

/// Appends the first `n` bytes of `src` to `acc`.
fn append_prefix(acc: &mut Vec<u8>, src: &Vec<u8>, n: usize)
    requires
        n <= src@.len(),
    ensures
        final(acc)@ == old(acc)@ + src@.subrange(0, n as int),
{
    let mut k: usize = 0;
    proof {
        assert(acc@ =~= old(acc)@ + src@.subrange(0, 0));
    }
    while k < n
        invariant
            k <= n,
            n <= src@.len(),
            acc@ == old(acc)@ + src@.subrange(0, k as int),
        decreases n - k,
    {
        acc.push(src[k]);
        k = k + 1;
        proof {
            assert(acc@ =~= old(acc)@ + src@.subrange(0, k as int));
        }
    }
}

/// Reconstructs the file at file index `fi` from the FAT and the data
/// chunks: follow the chain from the inode head, taking 64 bytes per
/// chunk, until a FAT value in `(0, 66]` gives the tail length.
pub fn read_file_at(
    fat: &Vec<u16>,
    files: u16,
    chunks: &Vec<Option<Vec<u8>>>,
    fi: usize,
) -> (r: Result<Vec<u8>, MeError>)
    ensures
        (fi >= files || fi >= fat@.len()) ==> r == Err::<Vec<u8>, MeError>(MeError::NoFile),
        fi < files && fi < fat@.len() ==> {
            let h0 = fat@[fi as int];
            &&& (h0 == FAT_NO_FILE ==> r == Err::<Vec<u8>, MeError>(MeError::NoFile))
            &&& (h0 == FAT_EMPTY ==> r == Err::<Vec<u8>, MeError>(MeError::EmptyFile))
            &&& (h0 != FAT_NO_FILE && h0 != FAT_EMPTY && h0 < files ==> r == Err::<
                Vec<u8>,
                MeError,
            >(MeError::InodeOutOfRange))
            &&& (h0 != FAT_NO_FILE && h0 != FAT_EMPTY && h0 >= files ==> {
                let full = file_seq(
                    fat@,
                    chunk_views(chunks@),
                    files as int,
                    h0 as int,
                    (fat@.len() + 1) as nat,
                );
                &&& ((r is Ok) <==> (full is Some))
                &&& (r matches Ok(f) ==> f@ == full->0)
                &&& (r matches Err(e) ==> (e == MeError::Truncated || e
                    == MeError::InodeOutOfRange))
            })
        },
{
    if fi >= files as usize || fi >= fat.len() {
        return Err(MeError::NoFile);
    }
    let h0 = fat[fi];
    if h0 == FAT_NO_FILE {
        return Err(MeError::NoFile);
    }
    if h0 == FAT_EMPTY {
        return Err(MeError::EmptyFile);
    }
    if h0 < files {
        return Err(MeError::InodeOutOfRange);
    }
    let ghost cv = chunk_views(chunks@);
    let ghost fuel0 = (fat@.len() + 1) as nat;
    if h0 as usize >= fat.len() {
        return Err(MeError::InodeOutOfRange);
    }
    let mut acc: Vec<u8> = Vec::new();
    let mut h: usize = h0 as usize;
    let mut steps: usize = 0;
    proof {
        assert(Seq::<u8>::empty() + file_seq(fat@, cv, files as int, h0 as int, fuel0)->0
            =~= file_seq(fat@, cv, files as int, h0 as int, fuel0)->0);
    }
    loop
        invariant
            files as int <= h < fat@.len(),
            steps <= fat@.len(),
            cv == chunk_views(chunks@),
            cv.len() == chunks@.len(),
            fuel0 == (fat@.len() + 1) as nat,
            fi < files && fi < fat@.len(),
            h0 == fat@[fi as int],
            h0 != FAT_NO_FILE && h0 != FAT_EMPTY && h0 >= files,
            ({
                let full = file_seq(fat@, cv, files as int, fat@[fi as int] as int, fuel0);
                let rest = file_seq(fat@, cv, files as int, h as int, (fuel0 - steps) as nat);
                match rest {
                    Option::Some(t) => full == Option::Some(acc@ + t),
                    Option::None => full is None,
                }
            }),
        decreases fat@.len() + 1 - steps,
    {
        let ci: usize = h - files as usize;
        if ci >= chunks.len() {
            return Err(MeError::Truncated);
        }
        let chunk = match &chunks[ci] {
            Option::Some(b) => b,
            Option::None => { return Err(MeError::Truncated); },
        };
        if chunk.len() != CHUNK_SIZE {
            return Err(MeError::Truncated);
        }
        let next = fat[h];
        proof {
            assert(cv[ci as int] == Option::Some(chunk@));
        }
        if next > 0 && next as usize <= CHUNK_SIZE {
            let n = next as usize;
            append_prefix(&mut acc, chunk, n);
            return Ok(acc);
        }
        append_prefix(&mut acc, chunk, CHUNK_PAYLOAD);
        proof {
            let rest = file_seq(fat@, cv, files as int, h as int, (fuel0 - steps) as nat);
            let rest2 = file_seq(
                fat@,
                cv,
                files as int,
                next as int,
                (fuel0 - steps - 1) as nat,
            );
            match rest2 {
                Option::Some(t2) => {
                    assert(rest == Option::Some(chunk@.subrange(0, CHUNK_PAYLOAD as int) + t2));
                },
                Option::None => {
                    assert(rest is None);
                },
            }
        }
        if next < files || next as usize >= fat.len() || steps >= fat.len() {
            return Err(MeError::InodeOutOfRange);
        }
        steps = steps + 1;
        h = next as usize;
        proof {
            let full = file_seq(fat@, cv, files as int, fat@[fi as int] as int, fuel0);
            let rest2 = file_seq(fat@, cv, files as int, h as int, (fuel0 - steps) as nat);
            match rest2 {
                Option::Some(t2) => {
                    assert(full == Option::Some(acc@ + t2)) by {
                        assert(acc@ + t2 =~= (acc@.subrange(0, acc@.len() - CHUNK_PAYLOAD)
                            + acc@.subrange(acc@.len() - CHUNK_PAYLOAD, acc@.len() as int)) + t2);
                    };
                },
                Option::None => {},
            }
        }
    }
}


/// The volume header recovered from chunk 0 of the system area.
#[derive(Clone, Copy, Debug, PartialEq, Eq, Structural)]
pub struct VolumeHeader {
    pub magic: u32,
    pub version: u32,
    /// Total chunk bytes of the volume.
    pub capacity: u32,
    /// Number of file indices in the FAT.
    pub files: u16,
}

/// A directory entry: 24 bytes of the directory blob.
#[derive(Clone, Debug)]
pub struct DirEntry {
    /// The low 12 bits index the FAT; the high bits are opaque salt.
    pub file_no: u32,
    pub mode: u16,
    pub uid: u16,
    pub gid: u16,
    pub salt: u16,
    pub name: Vec<u8>,
}

impl DirEntry {
    /// The FAT index the entry names: the low 12 bits of its file
    /// number; the higher bits are opaque salt.
    pub fn fat_index(&self) -> (r: u32)
        ensures
            r == self.file_no & 0xFFF,
    {
        self.file_no & 0xFFF
    }

    /// Whether the entry names a directory.
    pub fn is_directory(&self) -> (r: bool)
        ensures
            r == (self.mode & MODE_DIRECTORY != 0),
    {
        self.mode & MODE_DIRECTORY != 0
    }

    /// Whether the entry's file is integrity-protected.
    pub fn has_integrity(&self) -> (r: bool)
        ensures
            r == (self.mode & MODE_INTEGRITY != 0),
    {
        self.mode & MODE_INTEGRITY != 0
    }
}

/// The 52-byte security section that ends a directory blob.
#[derive(Clone, Debug)]
pub struct SecurityInfo {
    pub hmac: Vec<u8>,
    pub flags: u32,
    pub nonce: Vec<u8>,
}

impl SecurityInfo {
    /// The anti-replay counter selector: bits 0..2 of the flags.
    pub fn anti_replay(&self) -> (r: u32)
        ensures
            r == sec_anti_replay(self.flags),
    {
        self.flags & 0x3
    }

    /// Whether the directory is encrypted: bit 2 of the flags.
    pub fn encryption(&self) -> (r: u32)
        ensures
            r == sec_encryption(self.flags),
    {
        (self.flags >> 2) & 1
    }

    /// With anti-replay in effect, the first nonce word is a random
    /// value.
    pub fn ar_random(&self) -> (r: Result<u32, MeError>)
        ensures
            self.nonce@.len() >= 8 ==> r == Ok::<u32, MeError>(le32_at(self.nonce@, 0)),
            self.nonce@.len() < 8 ==> r == Err::<u32, MeError>(MeError::Truncated),
    {
        if self.nonce.len() < 8 {
            return Err(MeError::Truncated);
        }
        read_u32(&self.nonce, 0)
    }

    /// With anti-replay in effect, the second nonce word is a counter.
    pub fn ar_counter(&self) -> (r: Result<u32, MeError>)
        ensures
            self.nonce@.len() >= 8 ==> r == Ok::<u32, MeError>(le32_at(self.nonce@, 4)),
            self.nonce@.len() < 8 ==> r == Err::<u32, MeError>(MeError::Truncated),
    {
        if self.nonce.len() < 8 {
            return Err(MeError::Truncated);
        }
        read_u32(&self.nonce, 4)
    }
}

/// The directory mode bit that marks a directory.
pub const MODE_DIRECTORY: u16 = 0x4000;

/// The directory mode bit that selects integrity protection.
pub const MODE_INTEGRITY: u16 = 0x0200;

/// The FAT index of the root directory.
pub const ROOT_FILE_INDEX: usize = 8;

/// Bits 0..2 of the security flags: the anti-replay counter selector.
pub open spec fn sec_anti_replay(flags: u32) -> u32 {
    flags & 0x3
}

/// Bit 2 of the security flags: whether the directory is encrypted.
pub open spec fn sec_encryption(flags: u32) -> u32 {
    (flags >> 2) & 1
}

/// A decoded directory entry equals the 24 bytes at `o`.
pub open spec fn dir_entry_matches(e: DirEntry, s: Seq<u8>, o: int) -> bool {
    &&& e.file_no == le32_at(s, o)
    &&& e.mode == le16_at(s, o + 4)
    &&& e.uid == le16_at(s, o + 6)
    &&& e.gid == le16_at(s, o + 8)
    &&& e.salt == le16_at(s, o + 10)
    &&& e.name@ == s.subrange(o + 12, o + 24)
}

/// A decoded security section equals the last 52 bytes of the blob.
pub open spec fn security_matches(sec: SecurityInfo, s: Seq<u8>, o: int) -> bool {
    &&& sec.hmac@ == s.subrange(o, o + 32)
    &&& sec.flags == le32_at(s, o + 32)
    &&& sec.nonce@ == s.subrange(o + 36, o + 52)
}

/// Whether a directory blob's size admits `k` entries plus the security
/// section.
pub open spec fn dir_size_ok(len: nat) -> bool {
    len >= 52 && (len - 52) % 24 == 0
}

/// The flag-layout contract of a directory's security section: the high
/// twelve bits must equal the encryption bit shifted up by one.
pub open spec fn dir_flags_ok(flags: u32) -> bool {
    flags >> 20 == sec_encryption(flags) << 1
}

/// When neither anti-replay nor encryption is in effect, the nonce must be
/// all zero.
pub open spec fn dir_nonce_ok(flags: u32, nonce: Seq<u8>) -> bool {
    sec_anti_replay(flags) == 0 && sec_encryption(flags) == 0 ==> forall|i: int|
        0 <= i < nonce.len() ==> nonce[i] == 0
}

/// Decodes a directory blob: `k` 24-byte entries followed by the 52-byte
/// security section, whose flag layout and nonce are checked.
pub fn parse_dir_blob(content: &Vec<u8>) -> (r: Result<(Vec<DirEntry>, SecurityInfo), MeError>)
    ensures
        (r is Ok) <==> (dir_size_ok(content@.len()) && dir_flags_ok(
            le32_at(content@, content@.len() - 20),
        ) && dir_nonce_ok(
            le32_at(content@, content@.len() - 20),
            content@.subrange(content@.len() - 16, content@.len() as int),
        )),
        !dir_size_ok(content@.len()) ==> r == Err::<(Vec<DirEntry>, SecurityInfo), MeError>(
            MeError::MalformedDirectory,
        ),
        dir_size_ok(content@.len()) && !dir_flags_ok(le32_at(content@, content@.len() - 20)) ==> r
            == Err::<(Vec<DirEntry>, SecurityInfo), MeError>(MeError::BadDirectoryFlags),
        dir_size_ok(content@.len()) && dir_flags_ok(le32_at(content@, content@.len() - 20))
            && !dir_nonce_ok(
            le32_at(content@, content@.len() - 20),
            content@.subrange(content@.len() - 16, content@.len() as int),
        ) ==> r == Err::<(Vec<DirEntry>, SecurityInfo), MeError>(MeError::BadNonce),
        r matches Ok(es) ==> {
            &&& dir_size_ok(content@.len())
            &&& es.0@.len() == (content@.len() - 52) / 24
            &&& forall|k: int|
                0 <= k < es.0@.len() ==> dir_entry_matches(#[trigger] es.0@[k], content@, 24 * k)
            &&& security_matches(es.1, content@, content@.len() - 52)
            &&& dir_flags_ok(es.1.flags)
            &&& dir_nonce_ok(es.1.flags, es.1.nonce@)
        },
{
    let total = content.len();
    if total < 52 || (total - 52) % 24 != 0 {
        return Err(MeError::MalformedDirectory);
    }
    let n = (total - 52) / 24;
    proof {
        vstd::arithmetic::div_mod::lemma_fundamental_div_mod((total - 52) as int, 24int);
    }
    let sec_off = total - 52;
    let hmac = match read_bytes(content, sec_off, 32) {
        Ok(v) => v,
        Err(e) => { return Err(e); },
    };
    let flags = read_u32(content, sec_off + 32).unwrap();
    let nonce = match read_bytes(content, sec_off + 36, 16) {
        Ok(v) => v,
        Err(e) => { return Err(e); },
    };
    let encryption = (flags >> 2) & 1;
    if flags >> 20 != encryption << 1 {
        return Err(MeError::BadDirectoryFlags);
    }
    let anti_replay = flags & 0x3;
    if anti_replay == 0 && encryption == 0 {
        let mut i: usize = 0;
        while i < nonce.len()
            invariant
                i <= nonce@.len(),
                forall|q: int| 0 <= q < i ==> nonce@[q] == 0,
                nonce@ == content@.subrange(sec_off + 36, sec_off + 52),
                sec_off + 52 == content@.len(),
                sec_anti_replay(flags) == 0,
                sec_encryption(flags) == 0,
                dir_size_ok(content@.len()),
                dir_flags_ok(le32_at(content@, content@.len() - 20)),
                flags == le32_at(content@, content@.len() - 20),
            decreases nonce@.len() - i,
        {
            if nonce[i] != 0 {
                proof {
                    let sub = content@.subrange(content@.len() - 16, content@.len() as int);
                    assert(sub =~= nonce@);
                    assert(sub[i as int] != 0);
                    assert(sec_anti_replay(flags) == 0);
                    assert(sec_encryption(flags) == 0);
                    assert(exists|q: int| 0 <= q < sub.len() && (#[trigger] sub[q]) != 0);
                    assert(!dir_nonce_ok(flags, sub));
                }
                return Err(MeError::BadNonce);
            }
            i = i + 1;
        }
    }
    let mut entries: Vec<DirEntry> = Vec::new();
    let mut k: usize = 0;
    while k < n
        invariant
            k <= n,
            n == (content@.len() - 52) / 24,
            24 * n + 52 == content@.len(),
            content@.len() <= usize::MAX,
            entries@.len() == k,
            forall|j: int|
                0 <= j < k ==> dir_entry_matches(#[trigger] entries@[j], content@, 24 * j),
        decreases n - k,
    {
        proof {
            assert(24 * k + 24 <= 24 * n) by (nonlinear_arith)
                requires
                    k + 1 <= n,
            ;
            assert(24 * (k + 1) == 24 * k + 24) by (nonlinear_arith);
        }
        let pos: usize = 24 * k;
        let file_no = read_u32(content, pos).unwrap();
        let mode = read_u16(content, pos + 4).unwrap();
        let uid = read_u16(content, pos + 6).unwrap();
        let gid = read_u16(content, pos + 8).unwrap();
        let salt = read_u16(content, pos + 10).unwrap();
        let name = read_bytes(content, pos + 12, 12).unwrap();
        entries.push(DirEntry { file_no, mode, uid, gid, salt, name });
        k = k + 1;
    }
    let sec = SecurityInfo { hmac, flags, nonce };
    proof {
        assert(security_matches(sec, content@, content@.len() - 52));
        assert(dir_nonce_ok(sec.flags, sec.nonce@));
    }
    Ok((entries, sec))
}

/// A node of the reconstructed virtual filesystem: a file with its bytes,
/// or a directory with its security section and children.
#[derive(Debug)]
pub struct FsNode {
    pub entry: DirEntry,
    /// File content, or the raw directory blob.
    pub data: Vec<u8>,
    /// The security section, for directories.
    pub security: Option<SecurityInfo>,
    pub children: Vec<FsNode>,
    pub is_dir: bool,
}

/// What a walked node's bytes are: the empty sequence for an empty file,
/// or the file its FAT chain yields.
pub open spec fn walked_data_ok(
    d: Seq<u8>,
    fat: Seq<u16>,
    chunks: Seq<Option<Seq<u8>>>,
    files: u16,
    fi: int,
) -> bool {
    ||| (0 <= fi < files && fi < fat.len() && fat[fi] == FAT_EMPTY && d == Seq::<u8>::empty())
    ||| (0 <= fi < files && fi < fat.len() && fat[fi] != FAT_NO_FILE && fat[fi] != FAT_EMPTY
        && fat[fi] >= files && file_seq(
        fat,
        chunks,
        files as int,
        fat[fi] as int,
        (fat.len() + 1) as nat,
    ) == Option::Some(d))
}

/// Whether an entry name is `"."` or `".."`: a leading dot, an optional
/// second dot, NUL padding after.
pub open spec fn dot_name(name: Seq<u8>) -> bool {
    name.len() >= 1 && name[0] == 0x2E && (forall|i: int|
        1 <= i < name.len() ==> (#[trigger] name[i]) == 0 || (i == 1 && name[1] == 0x2E))
}

/// Whether a directory entry names the directory itself or its parent.
fn is_dot_entry(name: &Vec<u8>) -> (r: bool)
    ensures
        r == dot_name(name@),
{
    if name.len() == 0 || name[0] != 0x2E {
        return false;
    }
    let mut i: usize = 1;
    while i < name.len()
        invariant
            1 <= i <= name@.len(),
            name@.len() >= 1 && name@[0] == 0x2E,
            forall|q: int| 1 <= q < i ==> (#[trigger] name@[q]) == 0 || (q == 1 && name@[1] == 0x2E),
        decreases name@.len() - i,
    {
        if name[i] != 0 && !(i == 1 && name[i] == 0x2E) {
            return false;
        }
        i = i + 1;
    }
    true
}

/// Walks the directory tree from `entry`: a directory's file is decoded as
/// a blob and its non-dot entries become children; recursion is bounded by
/// `fuel`. An empty file reads as empty content.
fn walk_node(
    fat: &Vec<u16>,
    files: u16,
    chunks: &Vec<Option<Vec<u8>>>,
    entry: DirEntry,
    fuel: usize,
) -> (r: Result<FsNode, MeError>)
    ensures
        r matches Ok(n) ==> {
            &&& n.entry == entry
            &&& n.is_dir == (n.entry.mode & MODE_DIRECTORY != 0)
            &&& walked_data_ok(
                n.data@,
                fat@,
                chunk_views(chunks@),
                files,
                (entry.file_no & 0xFFF) as int,
            )
            &&& (!n.is_dir ==> n.children@.len() == 0)
            &&& (n.is_dir ==> {
                &&& n.security matches Some(sec) && dir_flags_ok(sec.flags) && dir_nonce_ok(
                    sec.flags,
                    sec.nonce@,
                )
                &&& dir_size_ok(n.data@.len())
                &&& forall|j: int|
                    0 <= j < n.children@.len() ==> exists|k: int|
                        0 <= k < (n.data@.len() - 52) / 24 && #[trigger] dir_entry_matches(
                            (#[trigger] n.children@[j]).entry,
                            n.data@,
                            24 * k,
                        ) && !dot_name(n.children@[j].entry.name@)
            })
        },
    decreases fuel,
{
    let fi: usize = (entry.file_no & 0xFFF) as usize;
    let is_dir = entry.mode & MODE_DIRECTORY != 0;
    let data = match read_file_at(fat, files, chunks, fi) {
        Ok(d) => d,
        Err(e) => {
            if e == MeError::EmptyFile {
                Vec::new()
            } else {
                return Err(e);
            }
        },
    };
    proof {
        assert(walked_data_ok(data@, fat@, chunk_views(chunks@), files, fi as int));
    }
    if !is_dir {
        return Ok(FsNode { entry, data, security: None, children: Vec::new(), is_dir });
    }
    if fuel == 0 {
        return Err(MeError::MalformedDirectory);
    }
    let (dir_entries, sec) = match parse_dir_blob(&data) {
        Ok(p) => p,
        Err(e) => { return Err(e); },
    };
    let ghost des0 = dir_entries@;
    let ghost blob = data@;
    let mut children: Vec<FsNode> = Vec::new();
    let mut dir_entries = dir_entries;
    while dir_entries.len() > 0
        invariant
            fuel >= 1,
            dir_entries@.len() <= des0.len(),
            dir_entries@ == des0.subrange(
                des0.len() - dir_entries@.len(),
                des0.len() as int,
            ),
            des0.len() == (blob.len() - 52) / 24,
            forall|k: int| 0 <= k < des0.len() ==> dir_entry_matches(#[trigger] des0[k], blob, 24 * k),
            forall|j: int|
                0 <= j < children@.len() ==> {
                    let c = #[trigger] children@[j];
                    &&& c.is_dir == (c.entry.mode & MODE_DIRECTORY != 0)
                    &&& (!c.is_dir ==> c.children@.len() == 0)
                    &&& (c.is_dir ==> c.security is Some)
                },
            forall|j: int|
                0 <= j < children@.len() ==> exists|k: int|
                    0 <= k < des0.len() && (#[trigger] children@[j]).entry == des0[k] && !dot_name(
                        children@[j].entry.name@,
                    ),
        decreases dir_entries@.len(),
    {
        let ghost consumed = des0.len() - dir_entries@.len();
        let de = dir_entries.remove(0);
        proof {
            assert(de == des0[consumed]);
            assert(dir_entries@ =~= des0.subrange(
                des0.len() - dir_entries@.len(),
                des0.len() as int,
            ));
        }
        if !is_dot_entry(&de.name) {
            let ghost de_snapshot = de;
            let child = match walk_node(fat, files, chunks, de, fuel - 1) {
                Ok(c) => c,
                Err(e) => { return Err(e); },
            };
            let ghost pre_children = children@;
            children.push(child);
            proof {
                assert(children@[pre_children.len() as int].entry == des0[consumed]);
                assert forall|j: int| 0 <= j < children@.len() implies exists|k: int|
                    0 <= k < des0.len() && (#[trigger] children@[j]).entry == des0[k] && !dot_name(
                        children@[j].entry.name@,
                    ) by {
                    if j < pre_children.len() {
                        assert(children@[j] == pre_children[j]);
                        let x = pre_children[j];
                        assert(exists|k: int|
                            0 <= k < des0.len() && x.entry == des0[k] && !dot_name(x.entry.name@));
                    }
                }
            }
        }
    }
    let node = FsNode { entry, data, security: Some(sec), children, is_dir };
    proof {
        assert(node.data@ == blob);
        assert forall|j: int| 0 <= j < node.children@.len() implies exists|k: int|
            0 <= k < (node.data@.len() - 52) / 24 && #[trigger] dir_entry_matches(
                (#[trigger] node.children@[j]).entry,
                node.data@,
                24 * k,
            ) && !dot_name(node.children@[j].entry.name@) by {
            let x = node.children@[j];
            assert(exists|k: int|
                0 <= k < des0.len() && x.entry == des0[k] && !dot_name(x.entry.name@));
            let k0 = choose|k: int|
                0 <= k < des0.len() && x.entry == des0[k] && !dot_name(x.entry.name@);
            assert(dir_entry_matches(des0[k0], blob, 24 * k0));
            assert(dir_entry_matches(x.entry, node.data@, 24 * k0));
        }
    }
    Ok(node)
}

/// A reconstructed MFS Gen 3 volume: its pages as read from the image, the
/// replayed system area with the volume header and FAT, the data chunk
/// array, and the virtual filesystem rooted at file index 8.
#[derive(Debug)]
pub struct Gen3Volume {
    /// Pages in the partition.
    pub n_pages: usize,
    /// System pages, in image order.
    pub sys_pages: Vec<SysPage>,
    /// Data pages, ordered by `first_chunk`.
    pub data_pages: Vec<DataPage>,
    /// The number of system chunks: the smallest data-page `first_chunk`.
    pub n_sys: u16,
    pub header: VolumeHeader,
    /// The replayed system area, `n_sys * 64` bytes.
    pub sys_area: Vec<u8>,
    pub fat: Vec<u16>,
    /// Data chunks indexed by `chunk_index - n_sys`; each entry 66 bytes.
    pub data_chunks: Vec<Option<Vec<u8>>>,
    /// The directory tree rooted at file index 8.
    pub root: FsNode,
}

/// The internal consistency of a reconstructed volume, as far as it does
/// not mention the partition bytes.
pub open spec fn volume_wf(v: Gen3Volume) -> bool {
    &&& v.sys_area@.len() == v.n_sys * CHUNK_PAYLOAD
    &&& v.fat@.len() == v.header.files + 122 * v.data_pages@.len()
    &&& forall|i: int| 0 <= i < v.fat@.len() ==> v.fat@[i] == le16_at(v.sys_area@, VOLUME_HEADER_SIZE + 2 * i)
    &&& v.header.magic == VOLUME_MAGIC
    &&& v.header.magic == le32_at(v.sys_area@, 0)
    &&& v.header.version == le32_at(v.sys_area@, 4)
    &&& v.header.capacity == le32_at(v.sys_area@, 8)
    &&& v.header.files == le16_at(v.sys_area@, 12)
    &&& v.data_chunks@.len() == 122 * v.data_pages@.len()
    &&& forall|i: int|
        0 <= i < v.data_chunks@.len() && (#[trigger] v.data_chunks@[i]) is Some
            ==> v.data_chunks@[i]->0@.len() == CHUNK_SIZE
    &&& forall|k: int|
        0 <= k < v.data_pages@.len() ==> (#[trigger] v.data_pages@[k]).header.first_chunk
            == v.n_sys + 122 * k
    &&& forall|i: int|
        0 <= i < v.n_sys ==> {
            let seg = v.sys_area@.subrange(
                #[trigger] (i * CHUNK_PAYLOAD),
                i * CHUNK_PAYLOAD + CHUNK_PAYLOAD,
            );
            seg == Seq::<u8>::new(CHUNK_PAYLOAD as nat, |z: int| 0u8) || winner_from_pages(
                v.sys_pages@,
                i,
                seg,
            )
        }
    &&& forall|i: int|
        0 <= i < v.n_sys && sys_chunk_present(#[trigger] v.sys_pages@, i) ==> winner_from_pages(
            v.sys_pages@,
            i,
            v.sys_area@.subrange(i * CHUNK_PAYLOAD, i * CHUNK_PAYLOAD + CHUNK_PAYLOAD),
        )
    &&& v.root.is_dir
    &&& v.root.entry.file_no == ROOT_FILE_INDEX as u32
    &&& v.root.entry.mode == MODE_DIRECTORY
    &&& walked_data_ok(
        v.root.data@,
        v.fat@,
        chunk_views(v.data_chunks@),
        v.header.files,
        ROOT_FILE_INDEX as int,
    )
    &&& dir_size_ok(v.root.data@.len())
    &&& (v.root.security matches Some(sec) && dir_flags_ok(sec.flags) && dir_nonce_ok(
        sec.flags,
        sec.nonce@,
    ))
}

/// What a reconstructed volume promises of the partition bytes it was read
/// from.
pub open spec fn volume_matches(v: Gen3Volume, s: Seq<u8>) -> bool {
    &&& s.len() % PAGE_SIZE as nat == 0
    &&& v.n_pages == s.len() / PAGE_SIZE as nat
    &&& v.n_pages >= 1
    &&& blank_count(s, v.n_pages as nat) == 1
    &&& forall|j: int|
        0 <= j < v.sys_pages@.len() ==> {
            let p = #[trigger] v.sys_pages@[j];
            &&& p.offset + PAGE_SIZE <= s.len()
            &&& sys_page_matches(p, s, p.offset as int)
            &&& p.header.first_chunk == 0
        }
    &&& forall|k: int|
        0 <= k < v.data_pages@.len() ==> {
            let p = #[trigger] v.data_pages@[k];
            &&& p.offset + PAGE_SIZE <= s.len()
            &&& data_page_matches(p, s, p.offset as int)
            &&& p.header.first_chunk > 0
        }
    &&& forall|j: int, c: int|
        0 <= j < v.sys_pages@.len() && 0 <= c < v.sys_pages@[j].chunks@.len()
            ==> (#[trigger] v.sys_pages@[j].chunks@[c]).idx < v.n_sys
    &&& forall|ii: int|
        0 <= ii < v.n_pages && !page_is_blank(s, ii) && le16_at(
            s,
            #[trigger] (ii * PAGE_SIZE) + 14,
        ) == 0 ==> exists|j: int|
            0 <= j < v.sys_pages@.len() && (#[trigger] v.sys_pages@[j]).offset == ii * PAGE_SIZE
}

/// Reconstructs the MFS Gen 3 volume of a partition: classifies its pages,
/// checks the data-page progression and every system chunk's CRC, replays
/// the system area, recovers the volume header and FAT, and walks the
/// directory tree from file index 8.
pub fn parse(data: &Vec<u8>) -> (r: Result<Gen3Volume, MeError>)
    ensures
        r matches Ok(v) ==> volume_wf(v) && volume_matches(v, data@),
        r matches Ok(v) ==> v.data_pages@.len() >= 1,
        r is Ok ==> gen3_pages_ok(data@),
        !gen3_pages_ok(data@) ==> r is Err,
        r is Ok ==> has_data_page(data@),
        gen3_pages_ok(data@) && !has_data_page(data@) ==> r == Err::<Gen3Volume, MeError>(
            MeError::BadVolumeMagic,
        ),
        data@.len() == 0 || data@.len() % PAGE_SIZE as nat != 0 ==> r == Err::<
            Gen3Volume,
            MeError,
        >(MeError::Truncated),
        data@.len() > 0 && data@.len() % PAGE_SIZE as nat == 0 && blank_count(
            data@,
            data@.len() / PAGE_SIZE as nat,
        ) != 1 ==> r is Err,
{
    let (sys_pages, data_pages) = match classify_pages(data) {
        Ok(pp) => pp,
        Err(e) => { return Err(e); },
    };
    let total = data.len();
    let n_pages = total / PAGE_SIZE;
    if data_pages.len() == 0 {
        // Without a data page the system area size is unrecoverable, and
        // the volume header cannot be located.
        proof {
            if has_data_page(data@) {
                let ii = choose|ii: int|
                    0 <= ii < data@.len() / PAGE_SIZE as nat && !page_is_blank(data@, ii)
                        && le16_at(data@, #[trigger] (ii * PAGE_SIZE) + 14) != 0;
                assert(exists|j: int|
                    0 <= j < data_pages@.len() && (#[trigger] data_pages@[j]).offset == ii
                        * PAGE_SIZE);
            }
            assert(!has_data_page(data@));
        }
        return Err(MeError::BadVolumeMagic);
    }
    proof {
        // The first data page witnesses a data page of the image.
        let p = data_pages@[0];
        let po = p.offset as int;
        vstd::arithmetic::div_mod::lemma_fundamental_div_mod(po, PAGE_SIZE as int);
        let ii = po / (PAGE_SIZE as int);
        assert(po == ii * PAGE_SIZE);
        vstd::arithmetic::div_mod::lemma_fundamental_div_mod(
            data@.len() as int,
            PAGE_SIZE as int,
        );
        assert(ii < data@.len() / PAGE_SIZE as nat) by (nonlinear_arith)
            requires
                ii * PAGE_SIZE + PAGE_SIZE <= data@.len(),
                data@.len() == PAGE_SIZE * (data@.len() as int / (PAGE_SIZE as int)) + (
                data@.len() as int % (PAGE_SIZE as int)),
                data@.len() as int % (PAGE_SIZE as int) == 0,
                data@.len() / PAGE_SIZE as nat == data@.len() as int / (PAGE_SIZE as int),
                PAGE_SIZE > 0,
                ii >= 0,
        ;
        assert(!page_is_blank(data@, ii));
        assert(le16_at(data@, ii * PAGE_SIZE + 14) != 0);
        assert(has_data_page(data@));
    }
    let n_sys = min_first_chunk(&data_pages);
    let winners = match merge_sys_chunks(&sys_pages, n_sys) {
        Ok(w) => w,
        Err(e) => { return Err(e); },
    };
    let (data_pages, data_chunks) = match place_data_pages(data_pages, n_sys, Ghost(data@)) {
        Ok(pp) => pp,
        Err(e) => { return Err(e); },
    };
    proof {
        assert(winners@.len() * CHUNK_PAYLOAD <= usize::MAX) by (nonlinear_arith)
            requires
                winners@.len() <= 0xFFFF,
        ;
    }
    let sys_area = build_sys_area(&winners);
    proof {
        assert forall|i: int| 0 <= i < n_sys as int implies {
            let seg = sys_area@.subrange(
                #[trigger] (i * CHUNK_PAYLOAD),
                i * CHUNK_PAYLOAD + CHUNK_PAYLOAD,
            );
            seg == Seq::<u8>::new(CHUNK_PAYLOAD as nat, |z: int| 0u8) || winner_from_pages(
                sys_pages@,
                i,
                seg,
            )
        } by {
            let seg = sys_area@.subrange(i * CHUNK_PAYLOAD, i * CHUNK_PAYLOAD + CHUNK_PAYLOAD);
            match winners@[i] {
                Option::Some(b) => {
                    assert(seg == b@);
                    assert(winner_from_pages(sys_pages@, i, b@));
                    let (j, c) = choose|j: int, c: int|
                        0 <= j < sys_pages@.len() && 0 <= c < sys_pages@[j].chunks@.len() && (
                        #[trigger] sys_pages@[j].chunks@[c]).idx == i
                            && sys_pages@[j].chunks@[c].payload@ == b@ && usn_dominates(
                            sys_pages@,
                            i,
                            sys_pages@[j].header.usn,
                        );
                    assert(sys_pages@[j].chunks@[c].payload@ == seg);
                    assert(winner_from_pages(sys_pages@, i, seg));
                },
                Option::None => {},
            }
        }
        assert forall|i: int|
            0 <= i < n_sys as int && sys_chunk_present(sys_pages@, i) implies winner_from_pages(
            sys_pages@,
            i,
            sys_area@.subrange(i * CHUNK_PAYLOAD, i * CHUNK_PAYLOAD + CHUNK_PAYLOAD),
        ) by {
            let (j, c) = choose|j: int, c: int|
                0 <= j < sys_pages@.len() && 0 <= c < sys_pages@[j].chunks@.len() && (
                #[trigger] sys_pages@[j].chunks@[c]).idx == i;
            assert(winners@[i] is Some);
            assert(!(sys_area@.subrange(i * CHUNK_PAYLOAD, i * CHUNK_PAYLOAD + CHUNK_PAYLOAD)
                == Seq::<u8>::new(CHUNK_PAYLOAD as nat, |z: int| 0u8)) || sys_area@.subrange(
                i * CHUNK_PAYLOAD,
                i * CHUNK_PAYLOAD + CHUNK_PAYLOAD,
            ) == winners@[i]->0@);
        }
    }
    if sys_area.len() < VOLUME_HEADER_SIZE {
        return Err(MeError::Truncated);
    }
    let magic = read_u32(&sys_area, 0).unwrap();
    if magic != VOLUME_MAGIC {
        return Err(MeError::BadVolumeMagic);
    }
    let version = read_u32(&sys_area, 4).unwrap();
    let capacity = read_u32(&sys_area, 8).unwrap();
    let files = read_u16(&sys_area, 12).unwrap();
    let header = VolumeHeader { magic, version, capacity, files };
    let n_data_chunks = data_chunks.len();
    if n_data_chunks > usize::MAX - files as usize {
        return Err(MeError::Truncated);
    }
    let fat_count = files as usize + n_data_chunks;
    let mut fat: Vec<u16> = Vec::new();
    let mut i: usize = 0;
    if fat_count > (usize::MAX - VOLUME_HEADER_SIZE) / 2 {
        return Err(MeError::Truncated);
    }
    while i < fat_count
        invariant
            i <= fat_count,
            fat_count <= (usize::MAX - VOLUME_HEADER_SIZE) / 2,
            gen3_pages_ok(data@),
            has_data_page(data@),
            n_pages == data@.len() / PAGE_SIZE as nat,
            forall|ii: int|
                0 <= ii < n_pages && !page_is_blank(data@, ii) && le16_at(
                    data@,
                    #[trigger] (ii * PAGE_SIZE) + 14,
                ) == 0 ==> exists|j: int|
                    0 <= j < sys_pages@.len() && (#[trigger] sys_pages@[j]).offset == ii
                        * PAGE_SIZE,
            fat@.len() == i,
            forall|q: int|
                0 <= q < i ==> fat@[q] == le16_at(sys_area@, VOLUME_HEADER_SIZE + 2 * q),
            forall|q: int|
                0 <= q < n_sys ==> {
                    let seg = sys_area@.subrange(
                        #[trigger] (q * CHUNK_PAYLOAD),
                        q * CHUNK_PAYLOAD + CHUNK_PAYLOAD,
                    );
                    seg == Seq::<u8>::new(CHUNK_PAYLOAD as nat, |z: int| 0u8)
                        || winner_from_pages(sys_pages@, q, seg)
                },
            forall|q: int|
                0 <= q < n_sys && sys_chunk_present(#[trigger] sys_pages@, q)
                    ==> winner_from_pages(
                    sys_pages@,
                    q,
                    sys_area@.subrange(q * CHUNK_PAYLOAD, q * CHUNK_PAYLOAD + CHUNK_PAYLOAD),
                ),
        decreases fat_count - i,
    {
        let e = match read_u16(&sys_area, VOLUME_HEADER_SIZE + 2 * i) {
            Ok(v) => v,
            Err(e) => { return Err(e); },
        };
        fat.push(e);
        i = i + 1;
    }
    let root_entry = DirEntry {
        file_no: ROOT_FILE_INDEX as u32,
        mode: MODE_DIRECTORY,
        uid: 0,
        gid: 0,
        salt: 0,
        name: Vec::new(),
    };
    let ghost root_entry_snapshot = root_entry;
    let root = match walk_node(&fat, files, &data_chunks, root_entry, files as usize + 1) {
        Ok(n) => n,
        Err(e) => { return Err(e); },
    };
    proof {
        assert(root.entry == root_entry_snapshot);
        assert(root.entry.file_no == ROOT_FILE_INDEX as u32);
        assert(root.entry.mode == MODE_DIRECTORY);
        let m = root.entry.mode;
        let fno = root.entry.file_no;
        assert(m & 0x4000u16 != 0) by (bit_vector)
            requires
                m == 0x4000u16,
        ;
        assert(fno & 0xFFFu32 == 8u32) by (bit_vector)
            requires
                fno == 8u32,
        ;
        assert(root.is_dir);
        assert(walked_data_ok(
            root.data@,
            fat@,
            chunk_views(data_chunks@),
            files,
            ROOT_FILE_INDEX as int,
        ));
    }
    let ghost sps = sys_pages@;
    let v = Gen3Volume {
        n_pages,
        sys_pages,
        data_pages,
        n_sys,
        header,
        sys_area,
        fat,
        data_chunks,
        root,
    };
    proof {
        assert(v.sys_pages@ == sps);
        assert forall|ii: int|
            0 <= ii < v.n_pages && !page_is_blank(data@, ii) && le16_at(
                data@,
                #[trigger] (ii * PAGE_SIZE) + 14,
            ) == 0 implies exists|j: int|
            0 <= j < v.sys_pages@.len() && (#[trigger] v.sys_pages@[j]).offset == ii * PAGE_SIZE by {
            assert(exists|j: int|
                0 <= j < sps.len() && (#[trigger] sps[j]).offset == ii * PAGE_SIZE);
            let j0 = choose|j: int|
                0 <= j < sps.len() && (#[trigger] sps[j]).offset == ii * PAGE_SIZE;
            assert(v.sys_pages@[j0] == sps[j0]);
        }
        assert(volume_wf(v));
        assert(volume_matches(v, data@));
    }
    Ok(v)
}

/// The CRC stored with every system chunk of a decoded page equals the
/// CRC-16/CCITT of its payload followed by the two little-endian bytes of
/// its derived index, and is the chunk's stored trailing word.
pub proof fn lemma_system_chunk_crc(p: SysPage, s: Seq<u8>, po: int, j: int)
    requires
        sys_page_matches(p, s, po),
        0 <= j < p.chunks@.len(),
    ensures
        p.chunks@[j].crc == chunk_crc(p.chunks@[j].payload@, p.chunks@[j].idx),
        p.chunks@[j].crc == le16_at(s, sys_chunk_off(po, p.chunks@[j].pos as int) + CHUNK_PAYLOAD),
{
}

/// Chunk indices of distinct data pages never collide: with the pages in
/// first-chunk order at `n_sys + 122 * k`, two slots of different pages
/// name different chunks.
pub proof fn lemma_data_chunk_indices_distinct(
    n_sys: u16,
    k1: int,
    p1: int,
    k2: int,
    p2: int,
)
    requires
        k1 != k2,
        0 <= p1 < 122,
        0 <= p2 < 122,
    ensures
        n_sys + 122 * k1 + p1 != n_sys + 122 * k2 + p2,
{
    assert(122 * k1 + p1 != 122 * k2 + p2) by (nonlinear_arith)
        requires
            k1 != k2,
            0 <= p1 < 122,
            0 <= p2 < 122,
    ;
}

} // verus!
