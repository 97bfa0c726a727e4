//! The error taxonomy shared by the compile and load pipeline.

use vstd::prelude::*;

verus! {

/// Every failure a core operation can report.
///
/// Each variant carries a human-readable description. `Io` is reserved for
/// surrounding file-access collaborators and is never produced by the core
/// itself; `Compilation` is reserved for higher-level compile failures.
#[derive(Debug, Clone, PartialEq, Eq)]
pub enum Error {
    /// An asset failed to convert itself to bytes.
    Serialization(String),
    /// A payload failed to convert back, or the container framing itself
    /// was malformed.
    Deserialization(String),
    /// A higher-level compile step failed.
    Compilation(String),
    /// An error propagated from a file-access collaborator.
    Io(String),
    /// A container entry's type name has no registered dispatcher.
    TypeNotFound(String),
}

} // verus!
