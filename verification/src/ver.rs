//! The four-part version number carried by manifests.

use vstd::prelude::*;

verus! {

/// A manifest version quadruple.
#[derive(Clone, Copy, Debug, PartialEq, Eq, Structural)]
pub struct Version {
    pub major: u16,
    pub minor: u16,
    pub patch: u16,
    pub build: u16,
}

} // verus!
