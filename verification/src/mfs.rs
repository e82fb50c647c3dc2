//! ME Flash File System parsing: the page-log Gen 2 variant and the
//! chunk-indexed, log-structured Gen 3 variant.

pub mod gen2;
pub mod gen3;

use vstd::prelude::*;

use crate::bytes::le32_at;
use crate::err::MeError;

verus! {

/// The first word of a Gen 2 MFS page matches this mask exactly.
pub const GEN2_PAGE_MAGIC_MASK: u32 = 0xfff0_7800;

/// Which MFS variant a partition holds, by the first-word heuristic.
#[derive(Clone, Copy, Debug, PartialEq, Eq, Structural)]
pub enum MfsKind {
    Gen2,
    Gen3,
}

/// A parsed MFS partition, either variant.
#[derive(Debug)]
pub enum MfsTree {
    Gen2(gen2::Gen2Mfs),
    Gen3(gen3::Gen3Volume),
}

/// Whether the partition's first word selects the Gen 2 parser.
pub open spec fn is_gen2(s: Seq<u8>) -> bool {
    s.len() >= 4 && le32_at(s, 0) & GEN2_PAGE_MAGIC_MASK == GEN2_PAGE_MAGIC_MASK
}

/// Parses an MFS partition, dispatching on the first-word heuristic:
/// a first word matching the Gen 2 page magic mask selects the Gen 2
/// page-log parser, anything else the Gen 3 volume reconstructor.
pub fn parse(data: &Vec<u8>) -> (r: Result<MfsTree, MeError>)
    ensures
        r matches Ok(t) ==> ((t is Gen2) == is_gen2(data@)),
        is_gen2(data@) ==> (r matches Ok(t) ==> t is Gen2),
        is_gen2(data@) ==> ((r is Ok) <==> gen2::gen2_parseable(data@)),
        !is_gen2(data@) ==> (r matches Ok(t) ==> t is Gen3),
        !is_gen2(data@) && (data@.len() == 0 || data@.len() % gen3::PAGE_SIZE as nat != 0) ==> r
            == Err::<MfsTree, MeError>(MeError::Truncated),
        !is_gen2(data@) && data@.len() > 0 && data@.len() % gen3::PAGE_SIZE as nat == 0
            && gen3::blank_count(data@, data@.len() / gen3::PAGE_SIZE as nat) != 1 ==> r is Err,
        !is_gen2(data@) && !gen3::gen3_pages_ok(data@) ==> r is Err,
        !is_gen2(data@) && gen3::gen3_pages_ok(data@) && !gen3::has_data_page(data@) ==> r
            == Err::<MfsTree, MeError>(MeError::BadVolumeMagic),
        !is_gen2(data@) && r is Ok ==> gen3::has_data_page(data@),
        r matches Ok(t) ==> (t matches MfsTree::Gen3(g) ==> (gen3::volume_wf(g)
            && gen3::volume_matches(g, data@))),
{
    if data.len() >= 4 {
        let m = match crate::bytes::read_u32(data, 0) {
            Ok(v) => v,
            Err(e) => { return Err(e); },
        };
        if m & GEN2_PAGE_MAGIC_MASK == GEN2_PAGE_MAGIC_MASK {
            return match gen2::parse(data) {
                Ok(g) => Ok(MfsTree::Gen2(g)),
                Err(e) => Err(e),
            };
        }
    }
    match gen3::parse(data) {
        Ok(v) => Ok(MfsTree::Gen3(v)),
        Err(e) => Err(e),
    }
}

} // verus!
