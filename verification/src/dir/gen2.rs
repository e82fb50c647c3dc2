//! Gen 2 module directory decoding: a `$MN2` manifest immediately followed
//! by a 12-byte sub-header and `$MME` module entries.

use vstd::prelude::*;

use crate::bytes::{le32_at, read_bytes, read_u32, trim_nul, trimmed_nul};
use crate::dir::man::{manifest_decodable, manifest_matches, Manifest, MANIFEST_SIZE};
use crate::err::MeError;

verus! {

/// The 12-byte sub-header between the manifest and the `$MME` entries.
pub const DIR_HEADER_SIZE: usize = 12;

/// The size of one `$MME` entry in bytes.
pub const ENTRY_SIZE: usize = 96;

/// How a module body is compressed, from bits 4..7 of the entry flags.
#[derive(Clone, Copy, Debug, PartialEq, Eq, Structural)]
pub enum Compression {
    Uncompressed,
    Huffman,
    Lzma,
    Unknown,
}

/// The compression kind encoded in an entry's flags.
pub open spec fn compression_of(flags: u32) -> Compression {
    let c = (flags >> 4) & 0b111;
    if c == 0 {
        Compression::Uncompressed
    } else if c == 1 {
        Compression::Huffman
    } else if c == 2 {
        Compression::Lzma
    } else {
        Compression::Unknown
    }
}

/// A 96-byte `$MME` module entry.
#[derive(Clone, Debug)]
pub struct Entry {
    pub magic: Vec<u8>,
    pub name: Vec<u8>,
    pub hash: Vec<u8>,
    pub mod_base: u32,
    pub offset: u32,
    pub code_size: u32,
    pub size: u32,
    pub memory_size: u32,
    pub pre_uma_size: u32,
    pub entry_point: u32,
    pub flags: u32,
    pub _54: u32,
    pub _58: u32,
    pub _5c: u32,
}

/// A module's memory map, derived from its entry.
#[derive(Clone, Copy, Debug, PartialEq, Eq, Structural)]
pub struct BinaryMap {
    /// Ring-assigned page index: bits 17..20 of the flags.
    pub rapi: u32,
    /// Kernel API pages: bits 20..22 of the flags.
    pub kapi: u32,
    pub code_start: u64,
    pub code_end: u64,
    pub data_end: u64,
}

impl Entry {
    /// The compression kind of the module body.
    pub fn compression_type(&self) -> (r: Compression)
        ensures
            r == compression_of(self.flags),
    {
        let comp_flag = (self.flags >> 4) & 0b111;
        match comp_flag {
            0 => Compression::Uncompressed,
            1 => Compression::Huffman,
            2 => Compression::Lzma,
            _ => Compression::Unknown,
        }
    }

    /// The module's memory map: the code region starts `(rapi + kapi)`
    /// pages above the module base and runs to `mod_base + code_size`;
    /// data extends to `mod_base + memory_size`.
    pub fn bin_map(&self) -> (r: BinaryMap)
        ensures
            r.rapi == (self.flags >> 17) & 0b111,
            r.kapi == (self.flags >> 20) & 0b11,
            r.code_start == self.mod_base + (r.rapi + r.kapi) * 0x1000,
            r.code_end == self.mod_base + self.code_size,
            r.data_end == self.mod_base + self.memory_size,
    {
        let b = self.mod_base as u64;
        let f = self.flags;
        let rapi = (f >> 17) & 0b111;
        let kapi = (f >> 20) & 0b11;
        proof {
            assert((f >> 17) & 0b111 <= 0b111 && (f >> 20) & 0b11 <= 0b11) by (bit_vector);
        }
        let code_start = b + ((rapi + kapi) as u64) * 0x1000;
        let code_end = b + self.code_size as u64;
        let data_end = b + self.memory_size as u64;
        BinaryMap { rapi, kapi, code_start, code_end, data_end }
    }
}

/// A decoded `$MME` entry equals the 96 bytes at `o`.
pub open spec fn mme_entry_matches(e: Entry, s: Seq<u8>, o: int) -> bool {
    &&& e.magic@ == s.subrange(o, o + 4)
    &&& e.name@ == s.subrange(o + 4, o + 20)
    &&& e.hash@ == s.subrange(o + 20, o + 52)
    &&& e.mod_base == le32_at(s, o + 52)
    &&& e.offset == le32_at(s, o + 56)
    &&& e.code_size == le32_at(s, o + 60)
    &&& e.size == le32_at(s, o + 64)
    &&& e.memory_size == le32_at(s, o + 68)
    &&& e.pre_uma_size == le32_at(s, o + 72)
    &&& e.entry_point == le32_at(s, o + 76)
    &&& e.flags == le32_at(s, o + 80)
    &&& e._54 == le32_at(s, o + 84)
    &&& e._58 == le32_at(s, o + 88)
    &&& e._5c == le32_at(s, o + 92)
}

/// When decoding the Gen 2 directory at `o` succeeds: its manifest
/// decodes, and the sub-header and all `$MME` entries are in bounds.
pub open spec fn gen2_dir_decodable(s: Seq<u8>, o: int) -> bool {
    &&& manifest_decodable(s, o)
    &&& o + MANIFEST_SIZE + DIR_HEADER_SIZE <= s.len()
    &&& o + MANIFEST_SIZE + DIR_HEADER_SIZE + 96 * le32_at(s, o + 32) <= s.len()
}

/// The 12-byte sub-header that names a Gen 2 directory.
#[derive(Clone, Debug)]
pub struct Header {
    pub name: Vec<u8>,
    pub pad: Vec<u8>,
}

/// A decoded Gen 2 module directory.
#[derive(Debug)]
pub struct Directory {
    pub manifest: Manifest,
    pub header: Header,
    pub entries: Vec<Entry>,
    pub offset: usize,
    pub name: Vec<u8>,
}

impl Directory {
    /// Decodes the Gen 2 directory at `off`: a manifest, the 12-byte
    /// sub-header that names the directory, and exactly
    /// `manifest.header.entries` 96-byte `$MME` records.
    pub fn new(data: &Vec<u8>, off: usize) -> (r: Result<Directory, MeError>)
        ensures
            (r is Ok) <==> gen2_dir_decodable(data@, off as int),
            r matches Ok(d) ==> {
                &&& d.offset == off
                &&& manifest_matches(d.manifest, data@, off as int)
                &&& d.header.name@ == data@.subrange(
                    off + MANIFEST_SIZE,
                    off + MANIFEST_SIZE + 4,
                )
                &&& d.name@ == trimmed_nul(d.header.name@)
                &&& d.entries@.len() == d.manifest.header.entries
                &&& forall|k: int|
                    0 <= k < d.entries@.len() ==> mme_entry_matches(
                        #[trigger] d.entries@[k],
                        data@,
                        off + MANIFEST_SIZE + DIR_HEADER_SIZE + 96 * k,
                    )
            },
    {
        let total = data.len();
        let manifest = match Manifest::new(data, off) {
            Ok(m) => m,
            Err(e) => { return Err(e); },
        };
        let header_name = match read_bytes(data, off + MANIFEST_SIZE, 4) {
            Ok(v) => v,
            Err(e) => { return Err(e); },
        };
        let pad = match read_bytes(data, off + MANIFEST_SIZE + 4, 8) {
            Ok(v) => v,
            Err(e) => { return Err(e); },
        };
        let name = trim_nul(&header_name);
        let header = Header { name: header_name, pad };
        let count = manifest.header.entries as usize;
        let base = off + MANIFEST_SIZE + DIR_HEADER_SIZE;
        // The whole entry table must fit; nothing else can fail below.
        if 96u64 * (manifest.header.entries as u64) > (total as u64) - (base as u64) {
            return Err(MeError::Truncated);
        }
        proof {
            assert(gen2_dir_decodable(data@, off as int));
        }
        let mut entries: Vec<Entry> = Vec::new();
        let mut k: usize = 0;
        while k < count
            invariant
                k <= count,
                base == off + MANIFEST_SIZE + DIR_HEADER_SIZE,
                base + 96 * count <= data@.len(),
                gen2_dir_decodable(data@, off as int),
                data@.len() <= usize::MAX,
                entries@.len() == k,
                forall|j: int|
                    0 <= j < k ==> mme_entry_matches(#[trigger] entries@[j], data@, base + 96 * j),
            decreases count - k,
        {
            proof {
                assert(96 * (k + 1) <= 96 * count);
            }
            let pos: usize = base + 96 * k;
            let e = read_entry(data, pos).unwrap();
            entries.push(e);
            k = k + 1;
        }
        Ok(Directory { manifest, header, entries, offset: off, name })
    }
}

/// Reads the 96-byte `$MME` entry at `off`.
fn read_entry(data: &Vec<u8>, off: usize) -> (r: Result<Entry, MeError>)
    ensures
        r matches Ok(e) ==> off + ENTRY_SIZE <= data@.len() && mme_entry_matches(
            e,
            data@,
            off as int,
        ),
        r is Err ==> r == Err::<Entry, MeError>(MeError::Truncated) && off + ENTRY_SIZE
            > data@.len(),
{
    if off >= data.len() || data.len() - off < ENTRY_SIZE {
        return Err(MeError::Truncated);
    }
    let magic = match read_bytes(data, off, 4) {
        Ok(v) => v,
        Err(e) => { return Err(e); },
    };
    let name = match read_bytes(data, off + 4, 16) {
        Ok(v) => v,
        Err(e) => { return Err(e); },
    };
    let hash = match read_bytes(data, off + 20, 32) {
        Ok(v) => v,
        Err(e) => { return Err(e); },
    };
    let mod_base = read_u32(data, off + 52).unwrap();
    let offset = read_u32(data, off + 56).unwrap();
    let code_size = read_u32(data, off + 60).unwrap();
    let size = read_u32(data, off + 64).unwrap();
    let memory_size = read_u32(data, off + 68).unwrap();
    let pre_uma_size = read_u32(data, off + 72).unwrap();
    let entry_point = read_u32(data, off + 76).unwrap();
    let flags = read_u32(data, off + 80).unwrap();
    let f54 = read_u32(data, off + 84).unwrap();
    let f58 = read_u32(data, off + 88).unwrap();
    let f5c = read_u32(data, off + 92).unwrap();
    Ok(
        Entry {
            magic,
            name,
            hash,
            mod_base,
            offset,
            code_size,
            size,
            memory_size,
            pre_uma_size,
            entry_point,
            flags,
            _54: f54,
            _58: f58,
            _5c: f5c,
        },
    )
}

} // verus!
