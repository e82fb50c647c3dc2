//! Read-only parser for Intel ME / CSE firmware images.
//!
//! Given a flat byte image, the library locates the Flash Partition Table,
//! enumerates partitions, decodes code-partition directories and manifests,
//! resolves the Firmware Interface Table, and reconstructs the ME Flash
//! File System (both the page-log Gen 2 and the chunk-indexed Gen 3 variant).

pub mod bytes;
pub mod crc;
pub mod dir;
pub mod err;
pub mod fit;
pub mod fpt;
pub mod mfs;
pub mod ver;

use vstd::prelude::*;

use crate::bytes::{le32_at, read_be32, read_bytes, read_u32};
use crate::dir::gen2::Directory as Gen2Directory;
use crate::dir::gen3::{CodePartitionDirectory, CPD_MAGIC};
use crate::err::MeError;
use crate::fpt::{
    fpt_entry_matches, fpt_matches, read_fpt, read_fpt_entry, FPTEntry, MfsPartition, ME_FPT,
    AFSP, DLMP, EFFS, FPT_MAGIC, FTPR, MDMV, MFS, NFTP,
};
use crate::mfs::MfsTree;

verus! {

/// The mask that turns a partition entry's offset field into an address.
pub const FPT_OFFSET_MASK: u32 = 0x003f_ffff;

/// The byte offset of the `$FPT` record found by a 16-byte-stride scan
/// from `b`, or `None` when the scan exhausts the image. A hit at `b`
/// means the magic stands at `b + 16` with room for the header.
pub open spec fn fpt_scan_from(s: Seq<u8>, b: nat) -> Option<nat>
    decreases (if s.len() >= b { s.len() - b } else { 0 }),
{
    if b + 48 > s.len() {
        Option::None
    } else if le32_at(s, (b + 16) as int) == FPT_MAGIC {
        Option::Some(b)
    } else {
        fpt_scan_from(s, b + 16)
    }
}

/// What the result's FIT field promises: a decode succeeds exactly when
/// the FIT is decodable from the image, and an absent or unreadable
/// pointer is reported as such.
pub open spec fn fit_field_ok(fit: Result<crate::fit::Fit, MeError>, s: Seq<u8>) -> bool {
    &&& ((fit is Ok) <==> crate::fit::fit_decodable(s))
    &&& (fit matches Ok(f) ==> crate::fit::fit_result_ok(f, s))
    &&& (s.len() < 0x40 ==> fit == Err::<crate::fit::Fit, MeError>(MeError::Truncated))
    &&& (s.len() >= 0x40 && le32_at(s, s.len() - 0x40) == 0xFFFF_FFFF ==> fit == Err::<
        crate::fit::Fit,
        MeError,
    >(MeError::NoFit))
}

/// Whether a decoded `$CPD` directory can stem from partition entry `e`:
/// the entry bears one of the code-partition names and resolves to the
/// directory's offset.
pub open spec fn dir_from_entry(d: CodePartitionDirectory, e: FPTEntry, base: int) -> bool {
    &&& {
        let n = crate::bytes::be32_at(e.name@, 0);
        n == MDMV || n == DLMP || n == FTPR || n == NFTP
    }
    &&& d.offset == base + (e.offset & FPT_OFFSET_MASK)
}

/// Whether a decoded Gen 2 directory can stem from partition entry `e`.
pub open spec fn gen2dir_from_entry(d: Gen2Directory, e: FPTEntry, base: int) -> bool {
    &&& {
        let n = crate::bytes::be32_at(e.name@, 0);
        n == MDMV || n == DLMP || n == FTPR || n == NFTP
    }
    &&& d.offset == base + (e.offset & FPT_OFFSET_MASK)
}

/// Whether an MFS partition record stems from partition entry `e`: the
/// entry bears one of the filesystem names, and its resolved offset and
/// size are recorded.
pub open spec fn mfs_from_entry(mp: MfsPartition, e: FPTEntry, base: int) -> bool {
    &&& mp.name == crate::bytes::be32_at(e.name@, 0)
    &&& (mp.name == MFS || mp.name == AFSP || mp.name == EFFS)
    &&& mp.offset == base + (e.offset & FPT_OFFSET_MASK)
    &&& mp.size == e.size
}

/// Every element of the three partition collections stems from some
/// partition entry; nothing is fabricated, and with no entries all three
/// are empty.
pub open spec fn collections_from_entries(
    dirs: Seq<CodePartitionDirectory>,
    g2: Seq<Gen2Directory>,
    mfs: Seq<MfsPartition>,
    entries: Seq<FPTEntry>,
    base: int,
) -> bool {
    &&& forall|j: int|
        0 <= j < dirs.len() ==> exists|k: int|
            0 <= k < entries.len() && dir_from_entry(#[trigger] dirs[j], entries[k], base)
    &&& forall|j: int|
        0 <= j < g2.len() ==> exists|k: int|
            0 <= k < entries.len() && gen2dir_from_entry(#[trigger] g2[j], entries[k], base)
    &&& forall|j: int|
        0 <= j < mfs.len() ==> exists|k: int|
            0 <= k < entries.len() && mfs_from_entry(#[trigger] mfs[j], entries[k], base)
}

/// What every decoded `$CPD` directory in the result promises of the
/// image bytes.
pub open spec fn directories_ok(v: Seq<CodePartitionDirectory>, s: Seq<u8>) -> bool {
    forall|j: int|
        0 <= j < v.len() ==> {
            let d = #[trigger] v[j];
            &&& d.offset + 16 <= s.len()
            &&& le32_at(s, d.offset as int) == CPD_MAGIC
            &&& crate::dir::gen3::cpd_header_matches(d.header, s, d.offset as int)
        }
}

/// What every decoded Gen 2 directory in the result promises of the image
/// bytes.
pub open spec fn gen2dirs_ok(v: Seq<Gen2Directory>, s: Seq<u8>) -> bool {
    forall|j: int|
        0 <= j < v.len() ==> {
            let d = #[trigger] v[j];
            &&& crate::dir::gen2::gen2_dir_decodable(s, d.offset as int)
            &&& crate::dir::man::manifest_matches(d.manifest, s, d.offset as int)
        }
}

/// What every MFS partition record in the result promises: its bytes are
/// the partition's bytes, and a successfully parsed Gen 3 volume matches
/// them.
pub open spec fn mfs_parts_ok(v: Seq<MfsPartition>, s: Seq<u8>) -> bool {
    forall|j: int|
        0 <= j < v.len() ==> {
            let mp = #[trigger] v[j];
            &&& mp.offset <= s.len()
            &&& mp.data@ == s.subrange(mp.offset as int, mp.offset + mp.data@.len())
            &&& (mp.tree matches Ok(t) ==> ((t is Gen2) == crate::mfs::is_gen2(mp.data@)))
            &&& (mp.tree matches Ok(t) ==> (t matches MfsTree::Gen3(g)
                ==> (crate::mfs::gen3::volume_wf(g) && crate::mfs::gen3::volume_matches(
                g,
                mp.data@,
            ))))
        }
}

/// Decodes a firmware image: resolves the FIT, scans for the `$FPT`,
/// enumerates its partition entries, and decodes each partition it can:
/// `$CPD` directories, Gen 2 directories, and MFS volumes. Failures
/// inside a partition are recorded without aborting the whole parse; only
/// a missing `$FPT` is fatal.
pub fn parse(data: &Vec<u8>) -> (r: Result<ME_FPT, MeError>)
    ensures
        (fpt_scan_from(data@, 0) is None) <==> r == Err::<ME_FPT, MeError>(MeError::NoFpt),
        fpt_scan_from(data@, 0) matches Some(b) ==> ((r is Ok) <==> b + 48 + 32 * le32_at(
            data@,
            b as int + 20,
        ) <= data@.len()),
        r matches Ok(t) ==> {
            let b = fpt_scan_from(data@, 0)->0 as int;
            &&& fpt_scan_from(data@, 0) is Some
            &&& t.base == (if b % 0x1000 != 0 {
                b + 16
            } else {
                b as int
            })
            &&& fpt_matches(t.header, data@, b + 16)
            &&& t.entries@.len() == t.header.entries
            &&& forall|k: int|
                0 <= k < t.entries@.len() ==> fpt_entry_matches(
                    #[trigger] t.entries@[k],
                    data@,
                    b + 48 + 32 * k,
                )
            &&& fit_field_ok(t.fit, data@)
            &&& directories_ok(t.directories@, data@)
            &&& gen2dirs_ok(t.gen2dirs@, data@)
            &&& mfs_parts_ok(t.mfs_parts@, data@)
            &&& collections_from_entries(
                t.directories@,
                t.gen2dirs@,
                t.mfs_parts@,
                t.entries@,
                t.base as int,
            )
        },
{
    let total = data.len();
    let fit = crate::fit::Fit::new(data);
    if total < 48 {
        return Err(MeError::NoFpt);
    }
    let mut base: usize = 0;
    while base <= total - 48
        invariant
            total == data@.len(),
            48 <= total <= usize::MAX,
            base % 16 == 0,
            fpt_scan_from(data@, 0) == fpt_scan_from(data@, base as nat),
            fit_field_ok(fit, data@),
        decreases total - base,
    {
        let o = base + 16;
        let m = read_u32(data, o).unwrap();
        if m == FPT_MAGIC {
            return parse_found(data, base, fit);
        }
        proof {
            assert(fpt_scan_from(data@, base as nat) == fpt_scan_from(data@, (base + 16) as nat));
        }
        base = base + 16;
    }
    proof {
        assert(fpt_scan_from(data@, base as nat) is None);
    }
    Err(MeError::NoFpt)
}

/// Decodes the image once the scan has hit the `$FPT` record at
/// `b + 16`.
#[verifier::rlimit(60)]
fn parse_found(data: &Vec<u8>, b: usize, fit: Result<crate::fit::Fit, MeError>) -> (r: Result<
    ME_FPT,
    MeError,
>)
    requires
        b + 48 <= data@.len(),
        le32_at(data@, b + 16) == FPT_MAGIC,
        fpt_scan_from(data@, 0) == Option::Some(b as nat),
        fit_field_ok(fit, data@),
    ensures
        (r is Ok) <==> b + 48 + 32 * le32_at(data@, b + 20) <= data@.len(),
        r matches Err(e) ==> e == MeError::Truncated,
        r matches Ok(t) ==> {
            &&& t.base == (if b % 0x1000 != 0 {
                b + 16
            } else {
                b as int
            })
            &&& fpt_matches(t.header, data@, b + 16)
            &&& t.entries@.len() == t.header.entries
            &&& forall|k: int|
                0 <= k < t.entries@.len() ==> fpt_entry_matches(
                    #[trigger] t.entries@[k],
                    data@,
                    b + 48 + 32 * k,
                )
            &&& fit_field_ok(t.fit, data@)
            &&& directories_ok(t.directories@, data@)
            &&& gen2dirs_ok(t.gen2dirs@, data@)
            &&& mfs_parts_ok(t.mfs_parts@, data@)
            &&& collections_from_entries(
                t.directories@,
                t.gen2dirs@,
                t.mfs_parts@,
                t.entries@,
                t.base as int,
            )
        },
{
    let total = data.len();
    let o = b + 16;
    let header = read_fpt(data, o).unwrap();
    let count = header.entries as usize;
    // The whole entry table must fit; nothing else can fail below.
    if 32u64 * (header.entries as u64) > (total as u64) - (b as u64) - 48 {
        proof {
            assert(b + 48 + 32 * le32_at(data@, b + 20) > data@.len());
        }
        return Err(MeError::Truncated);
    }
    proof {
        assert(b + 48 + 32 * count <= data@.len());
    }
    let mut entries: Vec<FPTEntry> = Vec::new();
    let mut e: usize = 0;
    while e < count
        invariant
            e <= count,
            b + 48 <= data@.len(),
            b + 48 + 32 * count <= data@.len(),
            count == le32_at(data@, b + 20),
            data@.len() <= usize::MAX,
            entries@.len() == e,
            forall|k: int|
                0 <= k < e ==> fpt_entry_matches(#[trigger] entries@[k], data@, b + 48 + 32 * k)
                    && (b + 48 + 32 * k) + 32 <= data@.len(),
        decreases count - e,
    {
        proof {
            assert(32 * (e + 1) <= 32 * count);
        }
        let pos: usize = b + 48 + 32 * e;
        let entry = read_fpt_entry(data, pos).unwrap();
        entries.push(entry);
        e = e + 1;
    }
    // If the hit is not page-aligned, entry offsets are relative to the
    // record itself rather than to the scan position.
    let base: usize = if b % 0x1000 != 0 {
        b + 16
    } else {
        b
    };
    let ghost entseq = entries@;
    proof {
        assert forall|k: int| 0 <= k < entseq.len() implies fpt_entry_matches(
            #[trigger] entseq[k],
            data@,
            b + 48 + 32 * k,
        ) && (b + 48 + 32 * k) + 32 <= data@.len() by {
            assert(entseq[k] == entries@[k]);
            assert(0 <= k < e);
            assert(fpt_entry_matches(entries@[k], data@, b + 48 + 32 * k));
        }
    }
    let mut directories: Vec<CodePartitionDirectory> = Vec::new();
    let mut gen2dirs: Vec<Gen2Directory> = Vec::new();
    let mut mfs_parts: Vec<MfsPartition> = Vec::new();
    let mut e: usize = 0;
    while e < entries.len()
        invariant
            total == data@.len(),
            total <= usize::MAX,
            base <= total,
            b + 48 <= data@.len(),
            b + 48 + 32 * le32_at(data@, b + 20) <= data@.len(),
            entries@ == entseq,
            forall|k: int|
                0 <= k < entseq.len() ==> fpt_entry_matches(
                    #[trigger] entseq[k],
                    data@,
                    b + 48 + 32 * k,
                ) && (b + 48 + 32 * k) + 32 <= data@.len(),
            directories_ok(directories@, data@),
            gen2dirs_ok(gen2dirs@, data@),
            mfs_parts_ok(mfs_parts@, data@),
            collections_from_entries(
                directories@,
                gen2dirs@,
                mfs_parts@,
                entseq,
                base as int,
            ),
        decreases entries@.len() - e,
    {
        proof {
            assert(entseq[e as int].name@.len() == 4);
            assert(entries@[e as int].name@.len() == 4);
        }
        let name = match read_be32(&entries[e].name, 0) {
            Ok(v) => v,
            Err(_) => 0,
        };
        let masked = (entries[e].offset & FPT_OFFSET_MASK) as usize;
        let size = entries[e].size as usize;
        let ghost pre_dirs = directories@;
        let ghost pre_g2 = gen2dirs@;
        let ghost pre_mfs = mfs_parts@;
        dispatch_entry(
            data,
            base,
            name,
            masked,
            size,
            &mut directories,
            &mut gen2dirs,
            &mut mfs_parts,
        );
        proof {
            assert(name == crate::bytes::be32_at(entseq[e as int].name@, 0));
            assert(masked == entseq[e as int].offset & FPT_OFFSET_MASK);
            assert forall|j: int| 0 <= j < directories@.len() implies exists|k: int|
                0 <= k < entseq.len() && dir_from_entry(
                    #[trigger] directories@[j],
                    entseq[k],
                    base as int,
                ) by {
                if j < pre_dirs.len() {
                    assert(directories@[j] == pre_dirs[j]);
                    let x = pre_dirs[j];
                    assert(exists|k: int|
                        0 <= k < entseq.len() && dir_from_entry(x, entseq[k], base as int));
                } else {
                    assert(dir_from_entry(directories@[j], entseq[e as int], base as int));
                }
            }
            assert forall|j: int| 0 <= j < gen2dirs@.len() implies exists|k: int|
                0 <= k < entseq.len() && gen2dir_from_entry(
                    #[trigger] gen2dirs@[j],
                    entseq[k],
                    base as int,
                ) by {
                if j < pre_g2.len() {
                    assert(gen2dirs@[j] == pre_g2[j]);
                    let x = pre_g2[j];
                    assert(exists|k: int|
                        0 <= k < entseq.len() && gen2dir_from_entry(x, entseq[k], base as int));
                } else {
                    assert(gen2dir_from_entry(gen2dirs@[j], entseq[e as int], base as int));
                }
            }
            assert forall|j: int| 0 <= j < mfs_parts@.len() implies exists|k: int|
                0 <= k < entseq.len() && mfs_from_entry(
                    #[trigger] mfs_parts@[j],
                    entseq[k],
                    base as int,
                ) by {
                if j < pre_mfs.len() {
                    assert(mfs_parts@[j] == pre_mfs[j]);
                    let x = pre_mfs[j];
                    assert(exists|k: int|
                        0 <= k < entseq.len() && mfs_from_entry(x, entseq[k], base as int));
                } else {
                    assert(mfs_from_entry(mfs_parts@[j], entseq[e as int], base as int));
                }
            }
        }
        e = e + 1;
    }
    let t = ME_FPT { base, header, entries, directories, gen2dirs, mfs_parts, fit };
    proof {
        assert(t.entries@ == entseq);
        assert forall|j: int| 0 <= j < t.directories@.len() implies exists|k: int|
            0 <= k < t.entries@.len() && dir_from_entry(
                #[trigger] t.directories@[j],
                t.entries@[k],
                t.base as int,
            ) by {
            let x = t.directories@[j];
            assert(exists|k: int|
                0 <= k < entseq.len() && dir_from_entry(x, entseq[k], base as int));
            let k0 = choose|k: int|
                0 <= k < entseq.len() && dir_from_entry(x, entseq[k], base as int);
            assert(t.entries@[k0] == entseq[k0]);
            assert(dir_from_entry(x, t.entries@[k0], t.base as int));
        }
        assert forall|j: int| 0 <= j < t.gen2dirs@.len() implies exists|k: int|
            0 <= k < t.entries@.len() && gen2dir_from_entry(
                #[trigger] t.gen2dirs@[j],
                t.entries@[k],
                t.base as int,
            ) by {
            let x = t.gen2dirs@[j];
            assert(exists|k: int|
                0 <= k < entseq.len() && gen2dir_from_entry(x, entseq[k], base as int));
            let k0 = choose|k: int|
                0 <= k < entseq.len() && gen2dir_from_entry(x, entseq[k], base as int);
            assert(t.entries@[k0] == entseq[k0]);
            assert(gen2dir_from_entry(x, t.entries@[k0], t.base as int));
        }
        assert forall|j: int| 0 <= j < t.mfs_parts@.len() implies exists|k: int|
            0 <= k < t.entries@.len() && mfs_from_entry(
                #[trigger] t.mfs_parts@[j],
                t.entries@[k],
                t.base as int,
            ) by {
            let x = t.mfs_parts@[j];
            assert(exists|k: int|
                0 <= k < entseq.len() && mfs_from_entry(x, entseq[k], base as int));
            let k0 = choose|k: int|
                0 <= k < entseq.len() && mfs_from_entry(x, entseq[k], base as int);
            assert(t.entries@[k0] == entseq[k0]);
            assert(mfs_from_entry(x, t.entries@[k0], t.base as int));
        }
    }
    Ok(t)
}

/// Decodes the partition a single `$FPT` entry names, extending the
/// matching collection: `$CPD` and Gen 2 directories for the code
/// partition names, MFS trees for the filesystem names.
fn dispatch_entry(
    data: &Vec<u8>,
    base: usize,
    name: u32,
    masked: usize,
    size: usize,
    directories: &mut Vec<CodePartitionDirectory>,
    gen2dirs: &mut Vec<Gen2Directory>,
    mfs_parts: &mut Vec<MfsPartition>,
)
    requires
        base <= data@.len(),
        directories_ok(old(directories)@, data@),
        gen2dirs_ok(old(gen2dirs)@, data@),
        mfs_parts_ok(old(mfs_parts)@, data@),
    ensures
        directories_ok(final(directories)@, data@),
        gen2dirs_ok(final(gen2dirs)@, data@),
        mfs_parts_ok(final(mfs_parts)@, data@),
        final(directories)@.len() >= old(directories)@.len(),
        final(gen2dirs)@.len() >= old(gen2dirs)@.len(),
        final(mfs_parts)@.len() >= old(mfs_parts)@.len(),
        forall|j: int|
            0 <= j < old(directories)@.len() ==> final(directories)@[j] == old(directories)@[j],
        forall|j: int|
            0 <= j < old(gen2dirs)@.len() ==> final(gen2dirs)@[j] == old(gen2dirs)@[j],
        forall|j: int|
            0 <= j < old(mfs_parts)@.len() ==> final(mfs_parts)@[j] == old(mfs_parts)@[j],
        forall|j: int|
            old(directories)@.len() <= j < final(directories)@.len() ==> {
                let d = #[trigger] final(directories)@[j];
                &&& d.offset == base + masked
                &&& (name == MDMV || name == DLMP || name == FTPR || name == NFTP)
            },
        forall|j: int|
            old(gen2dirs)@.len() <= j < final(gen2dirs)@.len() ==> {
                let d = #[trigger] final(gen2dirs)@[j];
                &&& d.offset == base + masked
                &&& (name == MDMV || name == DLMP || name == FTPR || name == NFTP)
            },
        forall|j: int|
            old(mfs_parts)@.len() <= j < final(mfs_parts)@.len() ==> {
                let mp = #[trigger] final(mfs_parts)@[j];
                &&& mp.offset == base + masked
                &&& mp.name == name
                &&& mp.size == size
                &&& (name == MFS || name == AFSP || name == EFFS)
            },
{
    let total = data.len();
    if masked >= total - base {
        return ;
    }
    let po = base + masked;
    if name == MDMV || name == DLMP || name == FTPR || name == NFTP {
        if total - po > 4 {
            let sig = read_u32(data, po).unwrap();
            if sig == CPD_MAGIC {
                if let Ok(cpd) = CodePartitionDirectory::new(data, po) {
                    let ghost pre = directories@;
                    directories.push(cpd);
                    proof {
                        assert(forall|j: int| 0 <= j < pre.len() ==> directories@[j] == pre[j]);
                    }
                }
            } else if let Ok(dir) = Gen2Directory::new(data, po) {
                let ghost pre = gen2dirs@;
                gen2dirs.push(dir);
                proof {
                    assert(forall|j: int| 0 <= j < pre.len() ==> gen2dirs@[j] == pre[j]);
                }
            }
        }
    } else if name == MFS || name == AFSP || name == EFFS {
        let take = if size > total - po {
            total - po
        } else {
            size
        };
        let part = read_bytes(data, po, take).unwrap();
        let tree = crate::mfs::parse(&part);
        let ghost pre = mfs_parts@;
        mfs_parts.push(MfsPartition { name, offset: po, size, data: part, tree });
        proof {
            assert(forall|j: int| 0 <= j < pre.len() ==> mfs_parts@[j] == pre[j]);
        }
    }
}

} // verus!
