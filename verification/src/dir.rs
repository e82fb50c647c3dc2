//! Directory decoders: the `$MN2` manifest, the Gen 2 (`$MME`) module
//! directory, and the Gen 3 (`$CPD`) code partition directory.

pub mod gen2;
pub mod gen3;
pub mod man;
