//! Descriptive metadata for an asset.

use vstd::prelude::*;

verus! {

/// Descriptive metadata attached to an asset: its logical name, its type
/// tag, and a content hash, all as carried by surrounding tooling.
#[derive(Debug, Clone, PartialEq, Eq)]
pub struct Metadata {
    /// The asset's logical instance identifier.
    pub name: String,
    /// The wire tag of the asset's type.
    pub type_tag: String,
    /// A content hash computed by surrounding tooling.
    pub hash: String,
}

} // verus!
