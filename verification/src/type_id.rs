//! Process-local type identity for asset records.

use vstd::prelude::*;

verus! {

/// A unique identifier distinguishing concrete asset record types at
/// runtime.
///
/// The value is an in-memory equality key only: it is not stable across
/// processes or builds and is never written to the wire. Cross-boundary
/// type matching goes through the type name string instead. Every
/// implementor of the asset contract picks one identity value; values must
/// be distinct across the record types used together in one process.
#[derive(Debug, Clone, Copy, PartialEq, Eq, Hash, Structural)]
pub struct Type(pub u64);

} // verus!
