//! `$MN2` manifest decoding: a fixed-layout signed metadata header followed
//! by an RSA public key, exponent and signature. Nothing cryptographic is
//! verified; the structures are only recognized.

use vstd::prelude::*;

use crate::bytes::{le16_at, le32_at, read_bytes, read_u16, read_u32};
use crate::err::MeError;
use crate::ver::Version;

verus! {

/// `"$MN2"` as a little-endian 32-bit value.
pub const MANIFEST2_MAGIC: u32 = 0x324E4D24;

/// The Intel vendor id.
pub const VENDOR_INTEL: u32 = 0x8086;

/// The size of the fixed manifest header in bytes.
pub const HEADER_SIZE: usize = 128;

/// The size of a whole manifest in bytes: header, RSA public key, public
/// exponent and signature.
pub const MANIFEST_SIZE: usize = 644;

/// A manifest date, stored as BCD digits: `0x2019` prints as `2019`.
#[derive(Clone, Copy, Debug, PartialEq, Eq, Structural)]
pub struct Date {
    pub day: u8,
    pub month: u8,
    pub year: u16,
}

/// A module vendor id; `0x8086` is Intel.
#[derive(Clone, Copy, Debug, PartialEq, Eq, Structural)]
pub struct Vendor(pub u32);

impl Vendor {
    /// Whether the vendor id is Intel's.
    pub fn is_intel(&self) -> (r: bool)
        ensures
            r == (self.0 == VENDOR_INTEL),
    {
        self.0 == VENDOR_INTEL
    }
}

/// The manifest header format version.
#[derive(Clone, Copy, Debug, PartialEq, Eq, Structural)]
pub struct HeaderVersion {
    pub minor: u16,
    pub major: u16,
}

/// The fixed 128-byte manifest header.
#[derive(Clone, Debug)]
pub struct Header {
    pub mod_type: u16,
    pub mod_subtype: u16,
    /// Header length in 32-bit words.
    pub header_len: u32,
    pub header_ver: HeaderVersion,
    pub flags: u32,
    pub vendor: Vendor,
    pub date: Date,
    /// Manifest size in 32-bit words.
    pub size: u32,
    pub magic: Vec<u8>,
    /// Module entry count; meaningful for Gen 2 firmware only.
    pub entries: u32,
    pub version: Version,
    /// Key size in 32-bit words.
    pub key_size: u32,
    pub scratch_size: u32,
}

/// A decoded manifest: header plus the RSA material at fixed offsets.
#[derive(Clone, Debug)]
pub struct Manifest {
    pub header: Header,
    pub rsa_pub_key: Vec<u8>,
    pub rsa_pub_exp: u32,
    pub rsa_sig: Vec<u8>,
}

/// A decoded manifest header equals the 128 bytes at `o`.
pub open spec fn header_matches(h: Header, s: Seq<u8>, o: int) -> bool {
    &&& h.mod_type == le16_at(s, o)
    &&& h.mod_subtype == le16_at(s, o + 2)
    &&& h.header_len == le32_at(s, o + 4)
    &&& h.header_ver.minor == le16_at(s, o + 8)
    &&& h.header_ver.major == le16_at(s, o + 10)
    &&& h.flags == le32_at(s, o + 12)
    &&& h.vendor.0 == le32_at(s, o + 16)
    &&& h.date.day == s[o + 20]
    &&& h.date.month == s[o + 21]
    &&& h.date.year == le16_at(s, o + 22)
    &&& h.size == le32_at(s, o + 24)
    &&& h.magic@ == s.subrange(o + 28, o + 32)
    &&& h.entries == le32_at(s, o + 32)
    &&& h.version.major == le16_at(s, o + 36)
    &&& h.version.minor == le16_at(s, o + 38)
    &&& h.version.patch == le16_at(s, o + 40)
    &&& h.version.build == le16_at(s, o + 42)
    &&& h.key_size == le32_at(s, o + 120)
    &&& h.scratch_size == le32_at(s, o + 124)
}

/// When decoding the manifest at `o` succeeds: the whole record is in
/// bounds and the header carries the `$MN2` magic.
pub open spec fn manifest_decodable(s: Seq<u8>, o: int) -> bool {
    &&& o + HEADER_SIZE <= s.len()
    &&& le32_at(s, o + 28) == MANIFEST2_MAGIC
    &&& o + MANIFEST_SIZE <= s.len()
}

/// A decoded manifest equals the 644 bytes at `o`, and carries the `$MN2`
/// magic.
pub open spec fn manifest_matches(m: Manifest, s: Seq<u8>, o: int) -> bool {
    &&& header_matches(m.header, s, o)
    &&& le32_at(s, o + 28) == MANIFEST2_MAGIC
    &&& m.rsa_pub_key@ == s.subrange(o + 128, o + 384)
    &&& m.rsa_pub_exp == le32_at(s, o + 384)
    &&& m.rsa_sig@ == s.subrange(o + 388, o + 644)
}

/// Reads the fixed manifest header at `off`; does not check the magic.
fn read_header(data: &Vec<u8>, off: usize) -> (r: Result<Header, MeError>)
    ensures
        r matches Ok(h) ==> off + HEADER_SIZE <= data@.len() && header_matches(
            h,
            data@,
            off as int,
        ),
        r is Err ==> r == Err::<Header, MeError>(MeError::Truncated) && off + HEADER_SIZE
            > data@.len(),
{
    if off >= data.len() || data.len() - off < HEADER_SIZE {
        return Err(MeError::Truncated);
    }
    let mod_type = read_u16(data, off).unwrap();
    let mod_subtype = read_u16(data, off + 2).unwrap();
    let header_len = read_u32(data, off + 4).unwrap();
    let hv_minor = read_u16(data, off + 8).unwrap();
    let hv_major = read_u16(data, off + 10).unwrap();
    let flags = read_u32(data, off + 12).unwrap();
    let vendor = read_u32(data, off + 16).unwrap();
    let day = data[off + 20];
    let month = data[off + 21];
    let year = read_u16(data, off + 22).unwrap();
    let size = read_u32(data, off + 24).unwrap();
    let magic = match read_bytes(data, off + 28, 4) {
        Ok(v) => v,
        Err(e) => { return Err(e); },
    };
    let entries = read_u32(data, off + 32).unwrap();
    let v_major = read_u16(data, off + 36).unwrap();
    let v_minor = read_u16(data, off + 38).unwrap();
    let v_patch = read_u16(data, off + 40).unwrap();
    let v_build = read_u16(data, off + 42).unwrap();
    let key_size = read_u32(data, off + 120).unwrap();
    let scratch_size = read_u32(data, off + 124).unwrap();
    Ok(
        Header {
            mod_type,
            mod_subtype,
            header_len,
            header_ver: HeaderVersion { minor: hv_minor, major: hv_major },
            flags,
            vendor: Vendor(vendor),
            date: Date { day, month, year },
            size,
            magic,
            entries,
            version: Version { major: v_major, minor: v_minor, patch: v_patch, build: v_build },
            key_size,
            scratch_size,
        },
    )
}

impl Manifest {
    /// Decodes the manifest at `off`: the fixed header must carry the
    /// `$MN2` magic, and the RSA key, exponent and signature follow it at
    /// fixed offsets.
    pub fn new(data: &Vec<u8>, off: usize) -> (r: Result<Manifest, MeError>)
        ensures
            (r is Ok) <==> manifest_decodable(data@, off as int),
            r matches Ok(m) ==> off + MANIFEST_SIZE <= data@.len() && manifest_matches(
                m,
                data@,
                off as int,
            ),
            off + HEADER_SIZE > data@.len() ==> r == Err::<Manifest, MeError>(MeError::Truncated),
            off + HEADER_SIZE <= data@.len() && le32_at(data@, off + 28) != MANIFEST2_MAGIC ==> r
                == Err::<Manifest, MeError>(
                MeError::BadMagic(MANIFEST2_MAGIC, le32_at(data@, off + 28)),
            ),
            off + HEADER_SIZE <= data@.len() && le32_at(data@, off + 28) == MANIFEST2_MAGIC && off
                + MANIFEST_SIZE > data@.len() ==> r == Err::<Manifest, MeError>(MeError::Truncated),
            r matches Err(e) ==> (e == MeError::Truncated || e matches MeError::BadMagic(_, _)),
    {
        let total = data.len();
        let header = match read_header(data, off) {
            Ok(h) => h,
            Err(e) => { return Err(e); },
        };
        proof {
            assert(off + 28 <= total);
        }
        let magic = match read_u32(data, off + 28) {
            Ok(v) => v,
            Err(e) => { return Err(e); },
        };
        if magic != MANIFEST2_MAGIC {
            return Err(MeError::BadMagic(MANIFEST2_MAGIC, magic));
        }
        if data.len() - off < MANIFEST_SIZE {
            return Err(MeError::Truncated);
        }
        let rsa_pub_key = match read_bytes(data, off + 128, 256) {
            Ok(v) => v,
            Err(e) => { return Err(e); },
        };
        let rsa_pub_exp = match read_u32(data, off + 384) {
            Ok(v) => v,
            Err(e) => { return Err(e); },
        };
        let rsa_sig = match read_bytes(data, off + 388, 256) {
            Ok(v) => v,
            Err(e) => { return Err(e); },
        };
        Ok(Manifest { header, rsa_pub_key, rsa_pub_exp, rsa_sig })
    }
}

} // verus!
