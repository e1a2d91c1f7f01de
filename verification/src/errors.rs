//! The error taxonomy of the catalog core.

use vstd::prelude::*;

verus! {

/// Which derived pointer of a published catalog was being resolved.
#[derive(PartialEq, Eq, Structural, Clone, Copy, Debug)]
pub enum PointerKind {
    Latest,
    Stable,
    Lts,
}

/// A failure of one step of catalog construction. Each variant carries the
/// context needed to reconstruct a diagnostic: the feature version involved,
/// or the transport collaborator's own message.
#[derive(Debug)]
pub enum CatalogError {
    /// The transport collaborator failed to fetch or decode an upstream page.
    Transport { detail: String },
    /// An upstream page held no candidate build for the requested version.
    NoCandidates { version: u64 },
    /// A `latest`, `stable` or `lts` target was not among the resolved
    /// versions.
    MissingPointer { pointer: PointerKind, version: u64 },
    /// The integrity hash for a download link could not be computed.
    Hashing { version: u64 },
    /// A resolved release had other than exactly one matching binary.
    Schema { version: u64 },
}

} // verus!
