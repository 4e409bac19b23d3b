use vstd::prelude::*;

verus! {

/// Errors surfaced by the filesystem engine.
#[derive(Debug, Clone, Copy, PartialEq, Eq, Structural)]
pub enum FsError {
    /// The underlying device could not deliver the requested bytes.
    Io,
    /// The boot sector does not describe a supported volume.
    InvalidBootSector,
    /// A cluster marked bad was met while following a chain.
    BadCluster,
    /// A cluster number outside `2..=cluster_count + 1` was met.
    ClusterOutOfRange,
    /// A chain ends before the data it should hold does.
    ChainTooShort,
    /// A directory record carries a type byte that is not defined.
    UndefinedEntry(u8),
    /// No file with the given identity is known.
    NotFound,
}

} // verus!
