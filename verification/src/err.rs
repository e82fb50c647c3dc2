//! Error values shared by every decoder in the crate.
//!
//! All failures are values; nothing in the library panics.

use vstd::prelude::*;

verus! {

/// Why a decoder gave up on its input.
#[derive(Clone, Copy, Debug, PartialEq, Eq, Structural)]
pub enum MeError {
    /// A read would cross the end of the input.
    Truncated,
    /// A required magic constant mismatches; carries expected and actual.
    BadMagic(u32, u32),
    /// The $FPT scan exhausted the image.
    NoFpt,
    /// The FIT pointer is absent or misaligned.
    NoFit,
    /// A FIT entry type byte falls in a reserved or unknown range.
    UnknownFitType,
    /// An MFS Gen 3 volume has more than one blank page.
    MultipleBlankPages,
    /// An MFS Gen 3 volume has no blank page at all.
    MissingBlankPage,
    /// A data page's first chunk index breaks the expected progression.
    DataPageOrderingViolation,
    /// A system chunk's derived index is not below the system area size.
    SystemChunkOutOfRange,
    /// Two data pages claim the same chunk index.
    DuplicateDataChunk,
    /// A system chunk's CRC does not match its payload and derived index.
    ChunkChecksumFailed,
    /// Chunk 0 of the assembled system area lacks the volume magic.
    BadVolumeMagic,
    /// The FAT entry for a file index is the no-file sentinel.
    NoFile,
    /// The FAT entry for a file index is the empty-file sentinel.
    EmptyFile,
    /// An inode head or chain pointer leaves the valid chunk range.
    InodeOutOfRange,
    /// A directory blob's size is not a whole number of entries.
    MalformedDirectory,
    /// A directory security section's flag layout is inconsistent.
    BadDirectoryFlags,
    /// A directory nonce is nonzero although neither anti-replay nor
    /// encryption is in effect.
    BadNonce,
    /// A code partition directory has no `.man` entry; a note, not fatal.
    NoManifest,
}

} // verus!
