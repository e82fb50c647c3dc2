//! The two CRC-16/CCITT variants of the MFS Gen 3 volume format.
//!
//! Payload checks use the standard IBM-3740 form (polynomial `0x1021`,
//! initial value `0xFFFF`). Chunk-index derivation uses a distinct variant
//! with initial value `0x3FFF` whose running value is masked to 14 bits
//! after each input byte. The two must not be collapsed into one routine.

use vstd::prelude::*;

verus! {

/// `x` shifted left `k` times through the CCITT polynomial `0x1021`.
pub closed spec fn crc_shift(x: u16, k: nat) -> u16
    decreases k,
{
    if k == 0 {
        x
    } else {
        let y = crc_shift(x, (k - 1) as nat);
        if y & 0x8000 != 0 {
            ((y << 1) ^ 0x1021) as u16
        } else {
            (y << 1) as u16
        }
    }
}

/// Entry `i` of the standard CCITT shift table: `i << 8` iterated eight
/// times through the polynomial, without any mask.
pub open spec fn crc_tab(i: u8) -> u16 {
    crc_shift((i as u16) << 8, 8)
}

/// One byte folded into a table-driven CRC-16/CCITT state.
pub open spec fn crc16_step(crc: u16, b: u8) -> u16 {
    crc_tab(b ^ ((crc >> 8) as u8)) ^ ((crc << 8) as u16)
}

/// The CRC-16/CCITT state after folding all of `s` into `crc`.
pub open spec fn crc16_from(crc: u16, s: Seq<u8>) -> u16
    decreases s.len(),
{
    if s.len() == 0 {
        crc
    } else {
        crc16_from(crc16_step(crc, s[0]), s.drop_first())
    }
}

/// CRC-16/CCITT (IBM-3740, initial value `0xFFFF`) over `s`; the payload
/// check of MFS Gen 3 chunks.
pub open spec fn crc16_of(s: Seq<u8>) -> u16 {
    crc16_from(0xFFFF, s)
}

/// The CRC a stored chunk must carry: CRC-16/CCITT over the 64-byte payload
/// followed by the two little-endian bytes of the chunk's derived index.
pub open spec fn chunk_crc(payload: Seq<u8>, idx: u16) -> u16 {
    crc16_of(payload.push((idx & 0xFF) as u8).push((idx >> 8) as u8))
}

/// One byte folded into the index-derivation state: as `crc16_step`, but the
/// running value is masked to 14 bits.
pub open spec fn crc_idx_step(crc: u16, b: u8) -> u16 {
    ((crc_tab(b ^ ((crc >> 8) as u8)) ^ ((crc << 8) as u16)) & 0x3FFF) as u16
}

/// The index-derivation hash of `v`: initial value `0x3FFF`, the two bytes
/// of `v` folded in low byte first, 14-bit masked per byte. A pure function
/// of `v` alone.
pub open spec fn crc_idx_of(v: u16) -> u16 {
    crc_idx_step(crc_idx_step(0x3FFF, (v & 0xFF) as u8), (v >> 8) as u8)
}

/// The derived index of the system chunk that follows slot value `slot`
/// when the previous derived index was `idx`.
pub open spec fn next_index(idx: u16, slot: u16) -> u16 {
    crc_idx_of(idx) ^ slot
}

/// Builds the 256-entry CCITT shift table.
pub fn crc16_table() -> (t: Vec<u16>)
    ensures
        t@.len() == 256,
        forall|i: int| 0 <= i < 256 ==> t@[i] == crc_tab(i as u8),
{
    let mut t: Vec<u16> = Vec::new();
    let mut i: usize = 0;
    while i < 256
        invariant
            i <= 256,
            t@.len() == i,
            forall|j: int| 0 <= j < i ==> t@[j] == crc_tab(j as u8),
        decreases 256 - i,
    {
        let mut v: u16 = (i as u16) << 8;
        let mut k: usize = 0;
        while k < 8
            invariant
                k <= 8,
                i < 256,
                v == crc_shift((i as u16) << 8, k as nat),
            decreases 8 - k,
        {
            if v & 0x8000 != 0 {
                v = (v << 1) ^ 0x1021;
            } else {
                v = v << 1;
            }
            k = k + 1;
        }
        t.push(v);
        i = i + 1;
    }
    t
}

/// Computes CRC-16/CCITT (IBM-3740) over `data`, continuing from `init`.
pub fn crc16_acc(init: u16, data: &Vec<u8>) -> (r: u16)
    ensures
        r == crc16_from(init, data@),
{
    let tab = crc16_table();
    let mut crc: u16 = init;
    let mut i: usize = 0;
    proof {
        assert(data@.subrange(0, data@.len() as int) =~= data@);
    }
    while i < data.len()
        invariant
            i <= data@.len(),
            tab@.len() == 256,
            forall|j: int| 0 <= j < 256 ==> tab@[j] == crc_tab(j as u8),
            crc16_from(init, data@) == crc16_from(crc, data@.subrange(i as int, data@.len() as int)),
        decreases data@.len() - i,
    {
        let b = data[i];
        let hi: u16 = crc >> 8;
        let ix: u8 = b ^ (hi as u8);
        proof {
            let rest = data@.subrange(i as int, data@.len() as int);
            assert(rest[0] == data@[i as int]);
            assert(rest.drop_first() =~= data@.subrange(i + 1, data@.len() as int));
        }
        crc = tab[ix as usize] ^ (crc << 8);
        i = i + 1;
    }
    proof {
        assert(data@.subrange(data@.len() as int, data@.len() as int) =~= Seq::<u8>::empty());
    }
    crc
}

/// Computes CRC-16/CCITT (IBM-3740, initial value `0xFFFF`) over `data`.
pub fn crc16(data: &Vec<u8>) -> (r: u16)
    ensures
        r == crc16_of(data@),
{
    crc16_acc(0xFFFF, data)
}

/// Computes the index-derivation hash `crc_idx_of(v)`. The result depends
/// on `v` alone: there is no hidden state.
pub fn crc_idx(v: u16) -> (r: u16)
    ensures
        r == crc_idx_of(v),
{
    let tab = crc16_table();
    let mut crc: u16 = 0x3FFF;
    let b0: u8 = (v & 0xFF) as u8;
    let b1: u8 = (v >> 8) as u8;
    let ix0: u8 = b0 ^ ((crc >> 8) as u8);
    crc = (tab[ix0 as usize] ^ (crc << 8)) & 0x3FFF;
    let ix1: u8 = b1 ^ ((crc >> 8) as u8);
    crc = (tab[ix1 as usize] ^ (crc << 8)) & 0x3FFF;
    crc
}

/// The derived index of the system chunk after slot value `slot`, when the
/// previous derived index was `idx`.
pub fn next_chunk_index(idx: u16, slot: u16) -> (r: u16)
    ensures
        r == next_index(idx, slot),
{
    crc_idx(idx) ^ slot
}

/// Folding bytes into a CRC state distributes over concatenation.
pub proof fn lemma_crc16_from_concat(crc: u16, s: Seq<u8>, t: Seq<u8>)
    ensures
        crc16_from(crc, s + t) == crc16_from(crc16_from(crc, s), t),
    decreases s.len(),
{
    if s.len() == 0 {
        assert(s + t =~= t);
    } else {
        assert((s + t).drop_first() =~= s.drop_first() + t);
        lemma_crc16_from_concat(crc16_step(crc, s[0]), s.drop_first(), t);
    }
}

/// Computes the CRC a chunk must carry: CRC-16/CCITT over `payload`
/// followed by the two little-endian bytes of `idx`.
pub fn compute_chunk_crc(payload: &Vec<u8>, idx: u16) -> (r: u16)
    ensures
        r == chunk_crc(payload@, idx),
{
    let base = crc16(payload);
    let tab = crc16_table();
    let b0: u8 = (idx & 0xFF) as u8;
    let b1: u8 = (idx >> 8) as u8;
    let mut crc: u16 = base;
    let ix0: u8 = b0 ^ ((crc >> 8) as u8);
    crc = tab[ix0 as usize] ^ (crc << 8);
    let ix1: u8 = b1 ^ ((crc >> 8) as u8);
    crc = tab[ix1 as usize] ^ (crc << 8);
    proof {
        let p = payload@;
        let two = seq![(idx & 0xFF) as u8, (idx >> 8) as u8];
        lemma_crc16_from_concat(0xFFFF, p, two);
        assert(p.push((idx & 0xFF) as u8).push((idx >> 8) as u8) =~= p + two);
        let c1 = crc16_step(base, two[0]);
        assert(crc16_from(base, two) == crc16_from(c1, two.drop_first()));
        assert(two.drop_first() =~= seq![(idx >> 8) as u8]);
        let c2 = crc16_step(c1, (idx >> 8) as u8);
        assert(crc16_from(c1, seq![(idx >> 8) as u8]) == crc16_from(
            c2,
            seq![(idx >> 8) as u8].drop_first(),
        ));
        assert(seq![(idx >> 8) as u8].drop_first() =~= Seq::<u8>::empty());
    }
    crc
}

} // verus!
