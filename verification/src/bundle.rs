//! A collection of assets together with its metadata.

use vstd::prelude::*;

use crate::metadata::Metadata;

verus! {

/// A collection of type-erased assets along with its metadata.
pub struct Bundle<U> {
    /// The bundle's metadata.
    pub metadata: Metadata,
    /// The bundled assets, in order.
    pub assets: Vec<U>,
}

} // verus!
