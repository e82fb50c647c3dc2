//! Flash Partition Table decoding and partition classification.
//!
//! The `$FPT` record is found by a 16-byte-stride scan; its entries name
//! and locate the partitions of the image.

use vstd::prelude::*;

use crate::bytes::{le16_at, le32_at, read_bytes, read_u16, read_u32};
use crate::dir::gen2::Directory as Gen2Directory;
use crate::dir::gen3::CodePartitionDirectory;
use crate::err::MeError;
use crate::fit::Fit;
use crate::mfs::MfsTree;

verus! {

/// `"$FPT"` as a little-endian 32-bit value.
pub const FPT_MAGIC: u32 = 0x54504624;

/// `"FTUP"` as a big-endian name value.
pub const FTUP: u32 = 0x46545550;

/// `"DLMP"` as a big-endian name value.
pub const DLMP: u32 = 0x444C4D50;

/// `"FTPR"` as a big-endian name value.
pub const FTPR: u32 = 0x46545052;

/// `"NFTP"` as a big-endian name value.
pub const NFTP: u32 = 0x4E465450;

/// `"MDMV"` as a big-endian name value.
pub const MDMV: u32 = 0x4D444D56;

/// `"MFS\0"` as a big-endian name value.
pub const MFS: u32 = 0x4D465300;

/// `"AFSP"` as a big-endian name value.
pub const AFSP: u32 = 0x41465350;

/// `"EFFS"` as a big-endian name value.
pub const EFFS: u32 = 0x45464653;

/// `"PSVN"` as a big-endian name value.
pub const PSVN: u32 = 0x5053564E;

/// `"IVBP"` as a big-endian name value.
pub const IVBP: u32 = 0x49564250;

/// `"ROMB"` as a big-endian name value.
pub const ROMB: u32 = 0x524F4D42;

/// `"WCOD"` as a big-endian name value.
pub const WCOD: u32 = 0x57434F44;

/// `"LOCL"` as a big-endian name value.
pub const LOCL: u32 = 0x4C4F434C;

/// `"FLOG"` as a big-endian name value.
pub const FLOG: u32 = 0x464C4F47;

/// `"UTOK"` as a big-endian name value.
pub const UTOK: u32 = 0x55544F4B;

/// `"ISHC"` as a big-endian name value.
pub const ISHC: u32 = 0x49534843;

/// `"FTPM"` as a big-endian name value.
pub const FTPM: u32 = 0x4654504D;

/// `"GLUT"` as a big-endian name value.
pub const GLUT: u32 = 0x474C5554;

/// `"FOVD"` as a big-endian name value.
pub const FOVD: u32 = 0x464F5644;

/// What a partition holds, by its name.
#[derive(Clone, Copy, Debug, PartialEq, Eq, Structural)]
pub enum PartitionType {
    Code,
    Data,
    Other,
}

/// The classification of a partition name, given as a big-endian 32-bit
/// value. Every name maps to exactly one class; unknown names map to
/// `Other`.
pub open spec fn classify_part(n: u32) -> PartitionType {
    if n == FTPR || n == FTUP || n == DLMP || n == NFTP || n == ROMB || n == WCOD || n == LOCL
        || n == ISHC || n == FTPM || n == MDMV {
        PartitionType::Code
    } else if n == PSVN || n == IVBP || n == MFS || n == FLOG || n == UTOK || n == GLUT || n == EFFS
        || n == FOVD {
        PartitionType::Data
    } else {
        PartitionType::Other
    }
}

/// Partition classification is total: every name value maps to exactly
/// one of the three classes.
pub proof fn lemma_classification_total(n: u32)
    ensures
        classify_part(n) is Code || classify_part(n) is Data || classify_part(n) is Other,
        !(classify_part(n) is Code && classify_part(n) is Data),
{
}

/// Classifies a partition by its name, given as a big-endian 32-bit
/// value, and describes it.
pub fn get_part_info(n: u32) -> (r: (PartitionType, &'static str))
    ensures
        r.0 == classify_part(n),
{
    match n {
        FTPR => (PartitionType::Code, "Main code partition"),
        FTUP => (PartitionType::Code, "[NFTP]+[WCOD]+[LOCL]"),
        DLMP => (PartitionType::Code, "IDLM partition"),
        PSVN => (PartitionType::Data, "Secure Version Number"),
        IVBP => (PartitionType::Data, "IV + Bring Up cache"),
        MFS => (PartitionType::Data, "ME Flash File System"),
        NFTP => (PartitionType::Code, "Additional code"),
        ROMB => (PartitionType::Code, "ROM Bypass"),
        WCOD => (PartitionType::Code, "WLAN uCode"),
        LOCL => (PartitionType::Code, "AMT Localization"),
        FLOG => (PartitionType::Data, "Flash Log"),
        UTOK => (PartitionType::Data, "Debug Unlock Token"),
        ISHC => (PartitionType::Code, "Integrated Sensors Hub"),
        MDMV => (PartitionType::Code, "MDMV code partition"),
        AFSP => (PartitionType::Other, "8778 55aa signature like MFS"),
        FTPM => (PartitionType::Code, "Firmware TPM (unconfirmed)"),
        GLUT => (PartitionType::Data, "Huffman Look-Up Table"),
        EFFS => (PartitionType::Data, "EFFS File System"),
        FOVD => (PartitionType::Data, "FOVD..."),
        _ => (PartitionType::Other, "[> UNKNOWN <]"),
    }
}

/// The version of the flash image tool that produced the table.
#[derive(Clone, Copy, Debug, PartialEq, Eq, Structural)]
pub struct FitcVer {
    pub major: u16,
    pub minor: u16,
    pub hotfix: u16,
    pub build: u16,
}

/// The 32-byte `$FPT` header.
#[derive(Clone, Debug)]
pub struct FPT {
    pub signature: Vec<u8>,
    pub entries: u32,
    pub header_ver: u8,
    pub entry_ver: u8,
    pub header_len: u8,
    pub checksum: u8,
    pub ticks_to_add: u16,
    pub tokens_to_add: u16,
    pub uma_size_or_reserved: u32,
    pub flash_layout_or_flags: u32,
    pub fitc_ver: FitcVer,
}

/// A 32-byte `$FPT` partition entry.
#[derive(Clone, Debug)]
pub struct FPTEntry {
    pub name: Vec<u8>,
    pub owner: Vec<u8>,
    /// Offset relative to the partition base; the low 22 bits address.
    pub offset: u32,
    pub size: u32,
    pub start_tokens: u32,
    pub max_tokens: u32,
    pub scratch_sectors: u32,
    pub flags: u32,
}

/// A decoded `$FPT` header equals the 32 bytes at `o`.
pub open spec fn fpt_matches(h: FPT, s: Seq<u8>, o: int) -> bool {
    &&& h.signature@ == s.subrange(o, o + 4)
    &&& h.entries == le32_at(s, o + 4)
    &&& h.header_ver == s[o + 8]
    &&& h.entry_ver == s[o + 9]
    &&& h.header_len == s[o + 10]
    &&& h.checksum == s[o + 11]
    &&& h.ticks_to_add == le16_at(s, o + 12)
    &&& h.tokens_to_add == le16_at(s, o + 14)
    &&& h.uma_size_or_reserved == le32_at(s, o + 16)
    &&& h.flash_layout_or_flags == le32_at(s, o + 20)
    &&& h.fitc_ver.major == le16_at(s, o + 24)
    &&& h.fitc_ver.minor == le16_at(s, o + 26)
    &&& h.fitc_ver.hotfix == le16_at(s, o + 28)
    &&& h.fitc_ver.build == le16_at(s, o + 30)
}

/// A decoded `$FPT` entry equals the 32 bytes at `o`.
pub open spec fn fpt_entry_matches(e: FPTEntry, s: Seq<u8>, o: int) -> bool {
    &&& e.name@ == s.subrange(o, o + 4)
    &&& e.owner@ == s.subrange(o + 4, o + 8)
    &&& e.offset == le32_at(s, o + 8)
    &&& e.size == le32_at(s, o + 12)
    &&& e.start_tokens == le32_at(s, o + 16)
    &&& e.max_tokens == le32_at(s, o + 20)
    &&& e.scratch_sectors == le32_at(s, o + 24)
    &&& e.flags == le32_at(s, o + 28)
}

/// Reads the `$FPT` header at `off`.
pub fn read_fpt(data: &Vec<u8>, off: usize) -> (r: Result<FPT, MeError>)
    ensures
        r matches Ok(h) ==> off + 32 <= data@.len() && fpt_matches(h, data@, off as int),
        r is Err ==> r == Err::<FPT, MeError>(MeError::Truncated) && off + 32 > data@.len(),
{
    if off >= data.len() || data.len() - off < 32 {
        return Err(MeError::Truncated);
    }
    let signature = read_bytes(data, off, 4).unwrap();
    let entries = read_u32(data, off + 4).unwrap();
    let header_ver = data[off + 8];
    let entry_ver = data[off + 9];
    let header_len = data[off + 10];
    let checksum = data[off + 11];
    let ticks_to_add = read_u16(data, off + 12).unwrap();
    let tokens_to_add = read_u16(data, off + 14).unwrap();
    let uma_size_or_reserved = read_u32(data, off + 16).unwrap();
    let flash_layout_or_flags = read_u32(data, off + 20).unwrap();
    let fitc_ver = FitcVer {
        major: read_u16(data, off + 24).unwrap(),
        minor: read_u16(data, off + 26).unwrap(),
        hotfix: read_u16(data, off + 28).unwrap(),
        build: read_u16(data, off + 30).unwrap(),
    };
    Ok(
        FPT {
            signature,
            entries,
            header_ver,
            entry_ver,
            header_len,
            checksum,
            ticks_to_add,
            tokens_to_add,
            uma_size_or_reserved,
            flash_layout_or_flags,
            fitc_ver,
        },
    )
}

/// Reads the `$FPT` entry at `off`.
pub fn read_fpt_entry(data: &Vec<u8>, off: usize) -> (r: Result<FPTEntry, MeError>)
    ensures
        r matches Ok(e) ==> off + 32 <= data@.len() && fpt_entry_matches(e, data@, off as int),
        r is Err ==> r == Err::<FPTEntry, MeError>(MeError::Truncated) && off + 32 > data@.len(),
{
    if off >= data.len() || data.len() - off < 32 {
        return Err(MeError::Truncated);
    }
    let name = read_bytes(data, off, 4).unwrap();
    let owner = read_bytes(data, off + 4, 4).unwrap();
    let offset = read_u32(data, off + 8).unwrap();
    let size = read_u32(data, off + 12).unwrap();
    let start_tokens = read_u32(data, off + 16).unwrap();
    let max_tokens = read_u32(data, off + 20).unwrap();
    let scratch_sectors = read_u32(data, off + 24).unwrap();
    let flags = read_u32(data, off + 28).unwrap();
    Ok(FPTEntry { name, owner, offset, size, start_tokens, max_tokens, scratch_sectors, flags })
}

/// An MFS partition's place in the image, its bytes, and what its parse
/// produced.
#[derive(Debug)]
pub struct MfsPartition {
    /// The partition name as a big-endian 32-bit value.
    pub name: u32,
    pub offset: usize,
    pub size: usize,
    /// The partition's bytes, clipped to the image.
    pub data: Vec<u8>,
    pub tree: Result<MfsTree, MeError>,
}

/// The decoded image: the partition table, the directories found in its
/// partitions, the MFS partitions, and the FIT.
#[allow(non_camel_case_types)]
#[derive(Debug)]
pub struct ME_FPT {
    pub base: usize,
    pub header: FPT,
    pub entries: Vec<FPTEntry>,
    pub directories: Vec<CodePartitionDirectory>,
    pub gen2dirs: Vec<Gen2Directory>,
    pub mfs_parts: Vec<MfsPartition>,
    pub fit: Result<Fit, MeError>,
}

} // verus!
