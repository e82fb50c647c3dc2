//! `$CPD` code partition directory decoding (Gen 3 firmware).
//!
//! A 16-byte header (20 with the known header extension) is followed by
//! 24-byte entries. An entry named `<partition>.man` carries the partition
//! manifest.

use vstd::prelude::*;

use crate::bytes::{bytes_eq, le32_at, read_bytes, read_u32, trim_nul, trimmed_nul};
use crate::dir::man::{manifest_decodable, manifest_matches, Manifest};
use crate::err::MeError;

verus! {

/// `"$CPD"` as a little-endian 32-bit value.
pub const CPD_MAGIC: u32 = 0x44504324;

/// The header value that signals a 4-byte header extension.
pub const CPD_HEADER_EXT_MARKER: u32 = 0x00140102;

/// The plain 16-byte `$CPD` header size.
pub const HEADER_SIZE: usize = 16;

/// Entry offsets carry flag bits above this mask.
pub const OFFSET_MASK: u32 = 0xffffff;

/// The 16-byte `$CPD` header.
#[derive(Clone, Debug)]
pub struct CPDHeader {
    pub magic: Vec<u8>,
    pub entries: u32,
    pub version_or_checksum: u32,
    pub part_name: Vec<u8>,
}

/// A 24-byte `$CPD` entry; the stored offset is masked to its low 24 bits.
#[derive(Clone, Debug)]
pub struct CPDEntry {
    pub name: Vec<u8>,
    pub offset: u32,
    pub size: u32,
    pub compression_flag: u32,
}

impl CPDEntry {
    /// The entry name without its trailing NUL padding.
    pub fn name(&self) -> (r: Vec<u8>)
        ensures
            r@ == trimmed_nul(self.name@),
    {
        trim_nul(&self.name)
    }
}

/// A decoded `$CPD` header equals the 16 bytes at `o`.
pub open spec fn cpd_header_matches(h: CPDHeader, s: Seq<u8>, o: int) -> bool {
    &&& h.magic@ == s.subrange(o, o + 4)
    &&& h.entries == le32_at(s, o + 4)
    &&& h.version_or_checksum == le32_at(s, o + 8)
    &&& h.part_name@ == s.subrange(o + 12, o + 16)
}

/// A decoded `$CPD` entry equals the 24 bytes at `o`, its offset masked.
pub open spec fn cpd_entry_matches(e: CPDEntry, s: Seq<u8>, o: int) -> bool {
    &&& e.name@ == s.subrange(o, o + 12)
    &&& e.offset == le32_at(s, o + 12) & OFFSET_MASK
    &&& e.size == le32_at(s, o + 16)
    &&& e.compression_flag == le32_at(s, o + 20)
}

/// The manifest entry name for a partition: the trimmed partition name
/// followed by `".man"`.
pub open spec fn man_entry_name(part_name: Seq<u8>) -> Seq<u8> {
    trimmed_nul(part_name) + seq![0x2Eu8, 0x6Du8, 0x61u8, 0x6Eu8]
}

/// Whether `e` is the manifest entry of the partition named `part_name`.
pub open spec fn is_man_entry(e: CPDEntry, part_name: Seq<u8>) -> bool {
    trimmed_nul(e.name@) == man_entry_name(part_name)
}

/// The entry table base of the `$CPD` at `o`: 4 bytes later when the
/// header extension marker is present.
pub open spec fn cpd_entry_base(s: Seq<u8>, o: int) -> int {
    o + if le32_at(s, o + 8) == CPD_HEADER_EXT_MARKER {
        20int
    } else {
        16int
    }
}

/// What the directory's manifest field must be, given the index `k` of
/// the first `.man` entry: the decode result of the manifest at that
/// entry's offset.
pub open spec fn man_field_ok(
    manifest: Result<Manifest, MeError>,
    entries: Seq<CPDEntry>,
    s: Seq<u8>,
    o: int,
    k: int,
) -> bool {
    &&& ((manifest is Ok) <==> (o + entries[k].offset <= usize::MAX && manifest_decodable(
        s,
        o + entries[k].offset,
    )))
    &&& (manifest matches Ok(m) ==> manifest_matches(m, s, o + entries[k].offset))
}

/// When decoding the `$CPD` at `o` succeeds: the header is in bounds,
/// carries the `$CPD` magic, and the whole entry table fits.
pub open spec fn cpd_decodable(s: Seq<u8>, o: int) -> bool {
    &&& o + HEADER_SIZE <= s.len()
    &&& o <= usize::MAX - 20
    &&& le32_at(s, o) == CPD_MAGIC
    &&& (le32_at(s, o + 4) == 0 || cpd_entry_base(s, o) + 24 * le32_at(s, o + 4) <= s.len())
}

/// A decoded code partition directory: header, entries, the manifest the
/// `.man` entry points at (or the reason there is none), and where in the
/// image the directory starts.
#[derive(Debug)]
pub struct CodePartitionDirectory {
    pub header: CPDHeader,
    pub manifest: Result<Manifest, MeError>,
    pub entries: Vec<CPDEntry>,
    pub offset: usize,
    pub name: Vec<u8>,
}

impl CodePartitionDirectory {
    /// Decodes the `$CPD` directory at `off`. The entry table begins after
    /// the header, 4 bytes later when the header extension marker is
    /// present. An entry named `<partition>.man` is decoded as the
    /// partition manifest; its absence is noted, not fatal.
    #[verifier::rlimit(60)]
    pub fn new(data: &Vec<u8>, off: usize) -> (r: Result<CodePartitionDirectory, MeError>)
        ensures
            (r is Ok) <==> cpd_decodable(data@, off as int),
            r matches Err(e) ==> (e == MeError::Truncated || e matches MeError::BadMagic(_, _)),
            off + HEADER_SIZE <= data@.len() && off <= usize::MAX - 20 && le32_at(data@, off as int)
                != CPD_MAGIC ==> r == Err::<CodePartitionDirectory, MeError>(
                MeError::BadMagic(CPD_MAGIC, le32_at(data@, off as int)),
            ),
            r matches Ok(cpd) ==> {
                &&& cpd.offset == off
                &&& off + HEADER_SIZE <= data@.len()
                &&& cpd_header_matches(cpd.header, data@, off as int)
                &&& cpd.name@ == trimmed_nul(data@.subrange(off + 12, off + 16))
                &&& cpd.entries@.len() == cpd.header.entries
                &&& {
                    let base = off + if cpd.header.version_or_checksum == CPD_HEADER_EXT_MARKER {
                        20int
                    } else {
                        16int
                    };
                    forall|k: int|
                        0 <= k < cpd.entries@.len() ==> cpd_entry_matches(
                            #[trigger] cpd.entries@[k],
                            data@,
                            base + 24 * k,
                        )
                }
                &&& ((forall|k: int|
                    0 <= k < cpd.entries@.len() ==> !is_man_entry(
                        #[trigger] cpd.entries@[k],
                        cpd.header.part_name@,
                    )) ==> cpd.manifest == Err::<Manifest, MeError>(MeError::NoManifest))
                &&& ((exists|k: int|
                    0 <= k < cpd.entries@.len() && is_man_entry(
                        #[trigger] cpd.entries@[k],
                        cpd.header.part_name@,
                    )) ==> exists|k: int|
                    {
                        &&& 0 <= k < cpd.entries@.len()
                        &&& is_man_entry(#[trigger] cpd.entries@[k], cpd.header.part_name@)
                        &&& forall|j: int|
                            0 <= j < k ==> !is_man_entry(
                                #[trigger] cpd.entries@[j],
                                cpd.header.part_name@,
                            )
                        &&& man_field_ok(cpd.manifest, cpd.entries@, data@, off as int, k)
                    })
            },
            off + HEADER_SIZE > data@.len() ==> r == Err::<CodePartitionDirectory, MeError>(
                MeError::Truncated,
            ),
    {
        let total = data.len();
        if off >= total || total - off < HEADER_SIZE {
            return Err(MeError::Truncated);
        }
        if off > usize::MAX - 20 {
            return Err(MeError::Truncated);
        }
        let magic_word = read_u32(data, off).unwrap();
        if magic_word != CPD_MAGIC {
            return Err(MeError::BadMagic(CPD_MAGIC, magic_word));
        }
        let magic = match read_bytes(data, off, 4) {
            Ok(v) => v,
            Err(e) => { return Err(e); },
        };
        let n_entries = match read_u32(data, off + 4) {
            Ok(v) => v,
            Err(e) => { return Err(e); },
        };
        let version_or_checksum = match read_u32(data, off + 8) {
            Ok(v) => v,
            Err(e) => { return Err(e); },
        };
        let part_name = match read_bytes(data, off + 12, 4) {
            Ok(v) => v,
            Err(e) => { return Err(e); },
        };
        let name = trim_nul(&part_name);
        let mut expected = trim_nul(&part_name);
        let header = CPDHeader { magic, entries: n_entries, version_or_checksum, part_name };
        let header_size: usize = if version_or_checksum == CPD_HEADER_EXT_MARKER {
            20
        } else {
            16
        };
        // The whole entry table must fit; nothing else can fail below.
        if n_entries > 0 {
            if (total as u64) - (off as u64) < header_size as u64 || 24u64 * (n_entries as u64)
                > (total as u64) - (off as u64) - (header_size as u64) {
                return Err(MeError::Truncated);
            }
        }
        proof {
            assert(cpd_decodable(data@, off as int));
        }
        let mut entries: Vec<CPDEntry> = Vec::new();
        let mut k: usize = 0;
        let count = n_entries as usize;
        while k < count
            invariant
                k <= count,
                count > 0 ==> off + header_size + 24 * count <= data@.len(),
                cpd_decodable(data@, off as int),
                data@.len() <= usize::MAX,
                entries@.len() == k,
                forall|j: int|
                    0 <= j < k ==> cpd_entry_matches(
                        #[trigger] entries@[j],
                        data@,
                        off + header_size + 24 * j,
                    ),
            decreases count - k,
        {
            proof {
                assert(24 * (k + 1) <= 24 * count);
            }
            let pos: usize = off + header_size + 24 * k;
            let e_name = match read_bytes(data, pos, 12) {
                Ok(v) => v,
                Err(e) => { return Err(e); },
            };
            let e_off = match read_u32(data, pos + 12) {
                Ok(v) => v,
                Err(e) => { return Err(e); },
            };
            let e_size = match read_u32(data, pos + 16) {
                Ok(v) => v,
                Err(e) => { return Err(e); },
            };
            let e_flag = match read_u32(data, pos + 20) {
                Ok(v) => v,
                Err(e) => { return Err(e); },
            };
            entries.push(
                CPDEntry {
                    name: e_name,
                    offset: e_off & OFFSET_MASK,
                    size: e_size,
                    compression_flag: e_flag,
                },
            );
            k = k + 1;
        }
        // The manifest lives in the entry named `<partition>.man`.
        expected.push(0x2E);
        expected.push(0x6D);
        expected.push(0x61);
        expected.push(0x6E);
        proof {
            assert(expected@ =~= man_entry_name(header.part_name@));
        }
        let mut manifest: Result<Manifest, MeError> = Err(MeError::NoManifest);
        let mut found: bool = false;
        let ghost mut found_at: int = 0;
        let mut k: usize = 0;
        while k < entries.len()
            invariant
                data@.len() <= usize::MAX,
                off + HEADER_SIZE <= data@.len(),
                cpd_decodable(data@, off as int),
                expected@ == man_entry_name(header.part_name@),
                k <= entries@.len(),
                !found ==> manifest == Err::<Manifest, MeError>(MeError::NoManifest),
                !found ==> forall|j: int|
                    0 <= j < k ==> !is_man_entry(#[trigger] entries@[j], header.part_name@),
                found ==> {
                    &&& 0 <= found_at < k
                    &&& is_man_entry(entries@[found_at], header.part_name@)
                    &&& forall|j: int|
                        0 <= j < found_at ==> !is_man_entry(
                            #[trigger] entries@[j],
                            header.part_name@,
                        )
                    &&& man_field_ok(manifest, entries@, data@, off as int, found_at)
                },
            decreases entries@.len() - k,
        {
            if !found {
                let trimmed = trim_nul(&entries[k].name);
                if bytes_eq(&trimmed, &expected) {
                    let e_off = entries[k].offset as usize;
                    if e_off <= usize::MAX - off {
                        manifest = Manifest::new(data, off + e_off);
                    } else {
                        manifest = Err(MeError::Truncated);
                    }
                    found = true;
                    proof {
                        found_at = k as int;
                    }
                }
            }
            k = k + 1;
        }
        let cpd = CodePartitionDirectory { header, manifest, entries, offset: off, name };
        proof {
            assert(cpd_header_matches(cpd.header, data@, off as int));
            assert(cpd.entries@.len() == cpd.header.entries);
            let base = off + if cpd.header.version_or_checksum == CPD_HEADER_EXT_MARKER {
                20int
            } else {
                16int
            };
            assert(forall|k: int|
                0 <= k < cpd.entries@.len() ==> cpd_entry_matches(
                    #[trigger] cpd.entries@[k],
                    data@,
                    base + 24 * k,
                ));
            if found {
                assert(is_man_entry(cpd.entries@[found_at], cpd.header.part_name@));
                assert(man_field_ok(cpd.manifest, cpd.entries@, data@, off as int, found_at));
                assert(exists|k: int|
                    {
                        &&& 0 <= k < cpd.entries@.len()
                        &&& is_man_entry(#[trigger] cpd.entries@[k], cpd.header.part_name@)
                        &&& forall|j: int|
                            0 <= j < k ==> !is_man_entry(
                                #[trigger] cpd.entries@[j],
                                cpd.header.part_name@,
                            )
                        &&& man_field_ok(cpd.manifest, cpd.entries@, data@, off as int, k)
                    });
            } else {
                assert(forall|k: int|
                    0 <= k < cpd.entries@.len() ==> !is_man_entry(
                        #[trigger] cpd.entries@[k],
                        cpd.header.part_name@,
                    ));
            }
        }
        Ok(cpd)
    }
}

} // verus!
