//! Bounds-checked little-endian readers over the input image.
//!
//! Every record in the image is decodable at any byte offset; there is no
//! alignment assumption. Each reader returns `Truncated` exactly when the
//! requested bytes cross the end of the input.

use vstd::prelude::*;

use crate::err::MeError;

verus! {

/// The little-endian 16-bit value of `s[i], s[i + 1]`.
pub open spec fn le16_at(s: Seq<u8>, i: int) -> u16 {
    (s[i] + s[i + 1] * 0x100) as u16
}

/// The little-endian 32-bit value of the four bytes at `i`.
pub open spec fn le32_at(s: Seq<u8>, i: int) -> u32 {
    (s[i] + s[i + 1] * 0x100 + s[i + 2] * 0x10000 + s[i + 3] * 0x1000000) as u32
}

/// The little-endian 64-bit value of the eight bytes at `i`.
pub open spec fn le64_at(s: Seq<u8>, i: int) -> u64 {
    (le32_at(s, i) + le32_at(s, i + 4) * 0x1_0000_0000) as u64
}

/// The big-endian 32-bit value of the four bytes at `i`; partition names
/// are compared in this order so that `"FTPR"` reads left to right.
pub open spec fn be32_at(s: Seq<u8>, i: int) -> u32 {
    (s[i] * 0x1000000 + s[i + 1] * 0x10000 + s[i + 2] * 0x100 + s[i + 3]) as u32
}

/// Reads the byte at `off`.
pub fn read_u8(data: &Vec<u8>, off: usize) -> (r: Result<u8, MeError>)
    ensures
        off < data@.len() ==> r == Ok::<u8, MeError>(data@[off as int]),
        off >= data@.len() ==> r == Err::<u8, MeError>(MeError::Truncated),
{
    if off < data.len() {
        Ok(data[off])
    } else {
        Err(MeError::Truncated)
    }
}

/// Reads the little-endian 16-bit value at `off`.
pub fn read_u16(data: &Vec<u8>, off: usize) -> (r: Result<u16, MeError>)
    ensures
        off + 2 <= data@.len() ==> r == Ok::<u16, MeError>(le16_at(data@, off as int)),
        off + 2 > data@.len() ==> r == Err::<u16, MeError>(MeError::Truncated),
{
    if off < data.len() && data.len() - off >= 2 {
        let b0 = data[off];
        let b1 = data[off + 1];
        Ok((b0 as u16) + (b1 as u16) * 0x100)
    } else {
        Err(MeError::Truncated)
    }
}

/// Reads the little-endian 32-bit value at `off`.
pub fn read_u32(data: &Vec<u8>, off: usize) -> (r: Result<u32, MeError>)
    ensures
        off + 4 <= data@.len() ==> r == Ok::<u32, MeError>(le32_at(data@, off as int)),
        off + 4 > data@.len() ==> r == Err::<u32, MeError>(MeError::Truncated),
{
    if off < data.len() && data.len() - off >= 4 {
        let b0 = data[off];
        let b1 = data[off + 1];
        let b2 = data[off + 2];
        let b3 = data[off + 3];
        Ok((b0 as u32) + (b1 as u32) * 0x100 + (b2 as u32) * 0x10000 + (b3 as u32) * 0x1000000)
    } else {
        Err(MeError::Truncated)
    }
}

/// Reads the little-endian 64-bit value at `off`.
pub fn read_u64(data: &Vec<u8>, off: usize) -> (r: Result<u64, MeError>)
    ensures
        off + 8 <= data@.len() ==> r == Ok::<u64, MeError>(le64_at(data@, off as int)),
        off + 8 > data@.len() ==> r == Err::<u64, MeError>(MeError::Truncated),
{
    if off < data.len() && data.len() - off >= 8 {
        let lo = match read_u32(data, off) {
            Ok(v) => v,
            Err(e) => { return Err(e); },
        };
        let hi = match read_u32(data, off + 4) {
            Ok(v) => v,
            Err(e) => { return Err(e); },
        };
        Ok((lo as u64) + (hi as u64) * 0x1_0000_0000)
    } else {
        Err(MeError::Truncated)
    }
}

/// Reads the four bytes at `off` as a big-endian 32-bit value, the order in
/// which partition and directory names are matched.
pub fn read_be32(data: &Vec<u8>, off: usize) -> (r: Result<u32, MeError>)
    ensures
        off + 4 <= data@.len() ==> r == Ok::<u32, MeError>(be32_at(data@, off as int)),
        off + 4 > data@.len() ==> r == Err::<u32, MeError>(MeError::Truncated),
{
    if off < data.len() && data.len() - off >= 4 {
        let b0 = data[off];
        let b1 = data[off + 1];
        let b2 = data[off + 2];
        let b3 = data[off + 3];
        Ok((b0 as u32) * 0x1000000 + (b1 as u32) * 0x10000 + (b2 as u32) * 0x100 + (b3 as u32))
    } else {
        Err(MeError::Truncated)
    }
}

/// `s` with its trailing NUL bytes removed; names shorter than their field
/// are padded with NULs in the image.
pub open spec fn trimmed_nul(s: Seq<u8>) -> Seq<u8>
    decreases s.len(),
{
    if s.len() > 0 && s.last() == 0 {
        trimmed_nul(s.drop_last())
    } else {
        s
    }
}

/// Copies `v` without its trailing NUL bytes.
pub fn trim_nul(v: &Vec<u8>) -> (r: Vec<u8>)
    ensures
        r@ == trimmed_nul(v@),
{
    let mut end: usize = v.len();
    proof {
        assert(v@.subrange(0, v@.len() as int) =~= v@);
    }
    while end > 0 && v[end - 1] == 0
        invariant
            end <= v@.len(),
            trimmed_nul(v@) == trimmed_nul(v@.subrange(0, end as int)),
        decreases end,
    {
        proof {
            assert(v@.subrange(0, end as int).drop_last() =~= v@.subrange(0, end - 1));
        }
        end = end - 1;
    }
    let mut out: Vec<u8> = Vec::new();
    let mut i: usize = 0;
    while i < end
        invariant
            end <= v@.len(),
            v@.len() <= usize::MAX,
            i <= end,
            out@ == v@.subrange(0, i as int),
        decreases end - i,
    {
        out.push(v[i]);
        i = i + 1;
        proof {
            assert(out@ =~= v@.subrange(0, i as int));
        }
    }
    out
}

/// Whether two byte vectors hold the same bytes.
pub fn bytes_eq(a: &Vec<u8>, b: &Vec<u8>) -> (r: bool)
    ensures
        r == (a@ == b@),
{
    if a.len() != b.len() {
        proof {
            assert(a@ != b@);
        }
        return false;
    }
    let mut i: usize = 0;
    while i < a.len()
        invariant
            a@.len() == b@.len(),
            i <= a@.len(),
            forall|j: int| 0 <= j < i ==> a@[j] == b@[j],
        decreases a@.len() - i,
    {
        if a[i] != b[i] {
            proof {
                assert(a@ != b@);
            }
            return false;
        }
        i = i + 1;
    }
    proof {
        assert(a@ =~= b@);
    }
    true
}

/// Copies the `n` bytes starting at `off` into an owned vector.
pub fn read_bytes(data: &Vec<u8>, off: usize, n: usize) -> (r: Result<Vec<u8>, MeError>)
    ensures
        off + n <= data@.len() ==> (r matches Ok(v) && v@ == data@.subrange(
            off as int,
            off + n,
        )),
        off + n > data@.len() ==> r == Err::<Vec<u8>, MeError>(MeError::Truncated),
{
    if off <= data.len() && data.len() - off >= n {
        let mut out: Vec<u8> = Vec::new();
        let mut i: usize = 0;
        while i < n
            invariant
                off + n <= data@.len(),
                data@.len() <= usize::MAX,
                i <= n,
                out@ == data@.subrange(off as int, off + i),
            decreases n - i,
        {
            let j: usize = off + i;
            out.push(data[j]);
            i = i + 1;
            proof {
                assert(out@ =~= data@.subrange(off as int, off + i));
            }
        }
        Ok(out)
    } else {
        Err(MeError::Truncated)
    }
}

} // verus!
