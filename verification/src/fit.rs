//! Firmware Interface Table decoding.
//!
//! The FIT is located through a 32-bit pointer at a fixed offset from the
//! end of the image, resolved via the flash-to-memory mapping mask.

use vstd::prelude::*;

use crate::bytes::{le16_at, le32_at, le64_at, read_u16, read_u32};
use crate::err::MeError;

verus! {

/// The FIT header magic, `"_FIT_   "`.
pub open spec fn fit_magic() -> Seq<u8> {
    seq![0x5Fu8, 0x46u8, 0x49u8, 0x54u8, 0x5Fu8, 0x20u8, 0x20u8, 0x20u8]
}

pub const MAP_8M: usize = 0x007f_ffff;

pub const MAP_16M: usize = 0x00ff_ffff;

pub const SIZE_8M: usize = 8 * 1024 * 1024;

pub const SIZE_16M: usize = 16 * 1024 * 1024;

/// Whether `n` is a power of two.
pub open spec fn is_power_of_two(n: usize) -> bool {
    n > 0 && n & (n - 1) as usize == 0
}

/// The mask that resolves a memory-mapped flash address back to an image
/// offset: `size - 1` for a power-of-two size, with the 16 MiB mask as
/// the fallback. Flash is mapped so that it ends at `0xFFFF_FFFF`.
pub open spec fn spec_mapping(size: usize) -> usize {
    if is_power_of_two(size) {
        (size - 1) as usize
    } else {
        MAP_16M
    }
}

/// Returns the flash-to-memory mapping mask for an image of `size` bytes.
pub fn get_mapping(size: usize) -> (r: usize)
    ensures
        r == spec_mapping(size),
{
    if size > 0 && size & (size - 1) == 0 {
        size - 1
    } else {
        MAP_16M
    }
}

/// A FIT entry type; a closed set of assigned values amid reserved ranges.
#[derive(Clone, Copy, Debug, PartialEq, Eq, Structural)]
pub enum EntryType {
    Header,
    MicrocodeUpdate,
    StartupACM,
    DiagnosticACM,
    BIOSStartupModule,
    TPMPolicyRecord,
    BIOSPolicyRecord,
    TXTPolicyRecord,
    KeyManifestRecord,
    BootPolicyManifest,
    CSESecureBoot,
    FeaturePolicyDeliveryRecord,
    IntelReserved,
    JMPDebugPolicy,
    UnusedEntry,
}

/// The assigned entry type for a type value, or `None` for a value in one
/// of the reserved or unused ranges.
pub open spec fn spec_entry_type(v: u8) -> Option<EntryType> {
    if v == 0x00 {
        Some(EntryType::Header)
    } else if v == 0x01 {
        Some(EntryType::MicrocodeUpdate)
    } else if v == 0x02 {
        Some(EntryType::StartupACM)
    } else if v == 0x03 {
        Some(EntryType::DiagnosticACM)
    } else if v == 0x07 {
        Some(EntryType::BIOSStartupModule)
    } else if v == 0x08 {
        Some(EntryType::TPMPolicyRecord)
    } else if v == 0x09 {
        Some(EntryType::BIOSPolicyRecord)
    } else if v == 0x0A {
        Some(EntryType::TXTPolicyRecord)
    } else if v == 0x0B {
        Some(EntryType::KeyManifestRecord)
    } else if v == 0x0C {
        Some(EntryType::BootPolicyManifest)
    } else if v == 0x10 {
        Some(EntryType::CSESecureBoot)
    } else if v == 0x2D {
        Some(EntryType::FeaturePolicyDeliveryRecord)
    } else if v == 0x2F {
        Some(EntryType::JMPDebugPolicy)
    } else {
        None
    }
}

impl EntryType {
    /// Decodes a type value; reserved and unused values are rejected with
    /// a short description.
    pub fn try_from(v: u8) -> (r: Result<EntryType, &'static str>)
        ensures
            r matches Ok(t) ==> spec_entry_type(v) == Some(t),
            r is Err ==> spec_entry_type(v) is None,
            (r is Ok) == (spec_entry_type(v) is Some),
            r matches Err(e) ==> e@.len() > 0,
    {
        proof {
            reveal_strlit("Intel Reserved");
            reveal_strlit("Reserved for Platform Manufacturer Use");
            reveal_strlit("Unused Entry");
            reveal_strlit("unknown FIT entry type");
        }
        match v {
            0x00 => Ok(EntryType::Header),
            0x01 => Ok(EntryType::MicrocodeUpdate),
            0x02 => Ok(EntryType::StartupACM),
            0x03 => Ok(EntryType::DiagnosticACM),
            0x04..=0x06 => Err("Intel Reserved"),
            0x07 => Ok(EntryType::BIOSStartupModule),
            0x08 => Ok(EntryType::TPMPolicyRecord),
            0x09 => Ok(EntryType::BIOSPolicyRecord),
            0x0A => Ok(EntryType::TXTPolicyRecord),
            0x0B => Ok(EntryType::KeyManifestRecord),
            0x0C => Ok(EntryType::BootPolicyManifest),
            0x0D..=0x0F => Err("Intel Reserved"),
            0x10 => Ok(EntryType::CSESecureBoot),
            0x11..=0x2C => Err("Intel Reserved"),
            0x2D => Ok(EntryType::FeaturePolicyDeliveryRecord),
            0x2E => Err("Intel Reserved"),
            0x2F => Ok(EntryType::JMPDebugPolicy),
            0x30..=0x70 => Err("Reserved for Platform Manufacturer Use"),
            0x71..=0x7E => Err("Intel Reserved"),
            0x7F => Err("Unused Entry"),
            _ => Err("unknown FIT entry type"),
        }
    }
}

/// The fixed 16-byte FIT header.
#[derive(Clone, Debug)]
pub struct FitHeader {
    pub magic: Vec<u8>,
    pub entries: u32,
    pub version: u16,
    pub checksum_valid_and_type: u8,
    pub checksum: u8,
}

/// A 16-byte FIT entry.
#[derive(Clone, Debug)]
pub struct FitEntry {
    pub addr: u64,
    pub size: Vec<u8>,
    pub version: u16,
    pub checksum_valid_and_type: u8,
    pub checksum: u8,
}

impl FitEntry {
    /// The entry's type value: the type byte without its checksum-valid bit.
    pub fn get_type(&self) -> (r: Result<EntryType, &'static str>)
        ensures
            r matches Ok(t) ==> spec_entry_type((self.checksum_valid_and_type & 0x7F)) == Some(t),
            (r is Ok) == (spec_entry_type((self.checksum_valid_and_type & 0x7F)) is Some),
            r matches Err(e) ==> e@.len() > 0,
    {
        let t = self.checksum_valid_and_type & 0x7F;
        EntryType::try_from(t)
    }

    /// A short name for the entry's type: never empty, determined by the
    /// type byte alone.
    pub fn get_type_name(&self) -> (r: &'static str)
        ensures
            r@.len() > 0,
    {
        proof {
            reveal_strlit("FIT Header");
            reveal_strlit("Microcode Update");
            reveal_strlit("Startup AC Module");
            reveal_strlit("Diagnostic AC Module");
            reveal_strlit("BIOS Startup Module");
            reveal_strlit("TPM Policy Record");
            reveal_strlit("BIOS Policy Record");
            reveal_strlit("TXT Policy Record");
            reveal_strlit("Key Manifest Record");
            reveal_strlit("Boot Policy Manifest");
            reveal_strlit("CSE Secure Boot");
            reveal_strlit("Feature Policy Delivery Record");
            reveal_strlit("Intel Reserved");
            reveal_strlit("JMP $ Debug Policy");
            reveal_strlit("Unused Entry (skip)");
        }
        let t = self.get_type();
        match t {
            Ok(EntryType::Header) => "FIT Header",
            Ok(EntryType::MicrocodeUpdate) => "Microcode Update",
            Ok(EntryType::StartupACM) => "Startup AC Module",
            Ok(EntryType::DiagnosticACM) => "Diagnostic AC Module",
            Ok(EntryType::BIOSStartupModule) => "BIOS Startup Module",
            Ok(EntryType::TPMPolicyRecord) => "TPM Policy Record",
            Ok(EntryType::BIOSPolicyRecord) => "BIOS Policy Record",
            Ok(EntryType::TXTPolicyRecord) => "TXT Policy Record",
            Ok(EntryType::KeyManifestRecord) => "Key Manifest Record",
            Ok(EntryType::BootPolicyManifest) => "Boot Policy Manifest",
            Ok(EntryType::CSESecureBoot) => "CSE Secure Boot",
            Ok(EntryType::FeaturePolicyDeliveryRecord) => "Feature Policy Delivery Record",
            Ok(EntryType::IntelReserved) => "Intel Reserved",
            Ok(EntryType::JMPDebugPolicy) => "JMP $ Debug Policy",
            Ok(EntryType::UnusedEntry) => "Unused Entry (skip)",
            Err(e) => e,
        }
    }

    /// Whether the entry's checksum-valid bit is set.
    pub fn is_checksum_valid(&self) -> (r: bool)
        ensures
            r == (self.checksum_valid_and_type & 0x80 > 0),
    {
        self.checksum_valid_and_type & 0x80 > 0
    }
}

/// A decoded FIT: header, entries, and where in the image it was found.
#[derive(Clone, Debug)]
pub struct Fit {
    pub header: FitHeader,
    pub entries: Vec<FitEntry>,
    pub mapping: usize,
    pub offset: usize,
}

/// A decoded FIT header equals the 16 bytes at `o`.
pub open spec fn fit_header_matches(h: FitHeader, s: Seq<u8>, o: int) -> bool {
    &&& h.magic@ == s.subrange(o, o + 8)
    &&& h.entries == le32_at(s, o + 8)
    &&& h.version == le16_at(s, o + 12)
    &&& h.checksum_valid_and_type == s[o + 14]
    &&& h.checksum == s[o + 15]
}

/// A decoded FIT entry equals the 16 bytes at `o`.
pub open spec fn fit_entry_matches(e: FitEntry, s: Seq<u8>, o: int) -> bool {
    &&& e.addr == le64_at(s, o)
    &&& e.size@ == s.subrange(o + 8, o + 11)
    &&& e.version == le16_at(s, o + 12)
    &&& e.checksum_valid_and_type == s[o + 14]
    &&& e.checksum == s[o + 15]
}

/// The image offset the FIT pointer resolves to, through the mapping
/// mask.
pub open spec fn fit_ptr_offset(s: Seq<u8>) -> int {
    (spec_mapping(s.len() as usize) as u32 & le32_at(s, s.len() - 0x40)) as int
}

/// When decoding the FIT succeeds: the pointer is present and aligned,
/// the header carries the magic and counts itself as an entry, and the
/// whole entry table is in bounds.
pub open spec fn fit_decodable(s: Seq<u8>) -> bool {
    &&& s.len() >= 0x40
    &&& le32_at(s, s.len() - 0x40) != 0xFFFF_FFFF
    &&& fit_ptr_offset(s) % 16 == 0
    &&& fit_ptr_offset(s) + 16 <= s.len()
    &&& s.subrange(fit_ptr_offset(s), fit_ptr_offset(s) + 8) == fit_magic()
    &&& le32_at(s, fit_ptr_offset(s) + 8) >= 1
    &&& fit_ptr_offset(s) + 16 + 16 * (le32_at(s, fit_ptr_offset(s) + 8) - 1) <= s.len()
}

/// What a decoded FIT promises of the image bytes: the pointer resolved
/// through the mapping mask, the header with its magic, and every entry
/// decoded verbatim.
pub open spec fn fit_result_ok(fit: Fit, s: Seq<u8>) -> bool {
    &&& s.len() >= 0x40
    &&& le32_at(s, s.len() - 0x40) != 0xFFFF_FFFF
    &&& fit.mapping == spec_mapping(s.len() as usize)
    &&& fit.offset == (fit.mapping as u32 & le32_at(s, s.len() - 0x40)) as usize
    &&& fit.offset % 16 == 0
    &&& fit_header_matches(fit.header, s, fit.offset as int)
    &&& fit.header.magic@ == fit_magic()
    &&& fit.header.entries >= 1
    &&& fit.entries@.len() == fit.header.entries - 1
    &&& forall|k: int|
        0 <= k < fit.entries@.len() ==> fit_entry_matches(
            #[trigger] fit.entries@[k],
            s,
            fit.offset + 16 + k * 16,
        )
}

/// Reads the FIT header fields at `off`.
fn read_fit_header(data: &Vec<u8>, off: usize) -> (r: Result<FitHeader, MeError>)
    ensures
        r matches Ok(h) ==> off + 16 <= data@.len() && fit_header_matches(h, data@, off as int),
        r is Err ==> r == Err::<FitHeader, MeError>(MeError::Truncated) && off + 16 > data@.len(),
{
    if off >= data.len() || data.len() - off < 16 {
        return Err(MeError::Truncated);
    }
    let mut magic: Vec<u8> = Vec::new();
    let mut i: usize = 0;
    while i < 8
        invariant
            i <= 8,
            off + 16 <= data@.len(),
            data@.len() <= usize::MAX,
            magic@ == data@.subrange(off as int, off + i),
        decreases 8 - i,
    {
        let j: usize = off + i;
        magic.push(data[j]);
        i = i + 1;
        proof {
            assert(magic@ =~= data@.subrange(off as int, off + i));
        }
    }
    let entries = match read_u32(data, off + 8) {
        Ok(v) => v,
        Err(e) => { return Err(e); },
    };
    let version = match read_u16(data, off + 12) {
        Ok(v) => v,
        Err(e) => { return Err(e); },
    };
    let cvt = data[off + 14];
    let checksum = data[off + 15];
    Ok(FitHeader { magic, entries, version, checksum_valid_and_type: cvt, checksum })
}

/// Reads the FIT entry at `off`.
fn read_fit_entry(data: &Vec<u8>, off: usize) -> (r: Result<FitEntry, MeError>)
    ensures
        r matches Ok(e) ==> off + 16 <= data@.len() && fit_entry_matches(e, data@, off as int),
        r is Err ==> r == Err::<FitEntry, MeError>(MeError::Truncated) && off + 16 > data@.len(),
{
    if off >= data.len() || data.len() - off < 16 {
        return Err(MeError::Truncated);
    }
    let addr = match crate::bytes::read_u64(data, off) {
        Ok(v) => v,
        Err(e) => { return Err(e); },
    };
    let mut size: Vec<u8> = Vec::new();
    size.push(data[off + 8]);
    size.push(data[off + 9]);
    size.push(data[off + 10]);
    proof {
        assert(size@ =~= data@.subrange(off + 8, off + 11));
    }
    let version = match read_u16(data, off + 12) {
        Ok(v) => v,
        Err(e) => { return Err(e); },
    };
    let cvt = data[off + 14];
    let checksum = data[off + 15];
    Ok(FitEntry { addr, size, version, checksum_valid_and_type: cvt, checksum })
}

impl Fit {
    /// Locates and decodes the FIT of a full flash image.
    ///
    /// The 32-bit pointer at `len - 0x40` is resolved through the mapping
    /// mask; `0xFFFF_FFFF` or a misaligned result means there is no FIT.
    /// The header counts as the first entry, so `entries - 1` records
    /// follow it.
    pub fn new(data: &Vec<u8>) -> (r: Result<Fit, MeError>)
        ensures
            (r is Ok) <==> fit_decodable(data@),
            r matches Ok(fit) ==> fit_result_ok(fit, data@),
            data@.len() < 0x40 ==> r == Err::<Fit, MeError>(MeError::Truncated),
            data@.len() >= 0x40 && le32_at(data@, data@.len() - 0x40) == 0xFFFF_FFFF ==> r
                == Err::<Fit, MeError>(MeError::NoFit),
    {
        if data.len() < 0x40 {
            return Err(MeError::Truncated);
        }
        let fitp_pos = data.len() - 0x40;
        let mapping = get_mapping(data.len());
        let fp = match read_u32(data, fitp_pos) {
            Ok(v) => v,
            Err(e) => { return Err(e); },
        };
        if fp == 0xffff_ffff {
            return Err(MeError::NoFit);
        }
        let offset = (mapping as u32 & fp) as usize;
        if offset % 0x10 != 0 {
            return Err(MeError::NoFit);
        }
        let header = match read_fit_header(data, offset) {
            Ok(h) => h,
            Err(e) => { return Err(e); },
        };
        let ok_magic = header.magic[0] == 0x5F && header.magic[1] == 0x46 && header.magic[2]
            == 0x49 && header.magic[3] == 0x54 && header.magic[4] == 0x5F && header.magic[5]
            == 0x20 && header.magic[6] == 0x20 && header.magic[7] == 0x20;
        if !ok_magic {
            let expected: u32 = 0x5449465F;
            let actual = match read_u32(data, offset) {
                Ok(v) => v,
                Err(e) => { return Err(e); },
            };
            return Err(MeError::BadMagic(expected, actual));
        }
        proof {
            assert(header.magic@ =~= fit_magic());
        }
        if header.entries == 0 {
            return Err(MeError::NoFit);
        }
        let count = (header.entries - 1) as usize;
        // The whole entry table must fit; nothing else can fail below.
        if 16u64 * (count as u64) > (data.len() as u64) - (offset as u64) - 16 {
            return Err(MeError::Truncated);
        }
        proof {
            assert(fit_decodable(data@));
        }
        let mut entries: Vec<FitEntry> = Vec::new();
        let mut k: usize = 0;
        while k < count
            invariant
                k <= count,
                offset + 16 + 16 * count <= data@.len(),
                data@.len() <= usize::MAX,
                data@.len() >= 0x40,
                le32_at(data@, data@.len() - 0x40) != 0xFFFF_FFFF,
                fit_decodable(data@),
                entries@.len() == k,
                forall|j: int|
                    0 <= j < k ==> fit_entry_matches(
                        #[trigger] entries@[j],
                        data@,
                        offset + 16 + j * 16,
                    ),
            decreases count - k,
        {
            proof {
                assert(16 * (k + 1) <= 16 * count);
            }
            let pos: usize = offset + 16 + k * 16;
            let e = read_fit_entry(data, pos).unwrap();
            entries.push(e);
            k = k + 1;
        }
        Ok(Fit { header, entries, mapping, offset })
    }
}

} // verus!
