//! The compiler: collects an ordered, heterogeneous list of type-erased
//! assets and serializes them into a single binary container.

use vstd::prelude::*;

use crate::asset::ErasedAsset;
use crate::codec::container_encoding;
use crate::codec::encode_container;
use crate::codec::entries_view;
use crate::error::Error;

verus! {

/// The `(type tag, payload)` projection of an asset list: the abstract
/// contents of the container `compile` writes.
pub open spec fn spec_entries<U: ErasedAsset>(assets: Seq<U>) -> Seq<(Seq<char>, Seq<u8>)> {
    assets.map_values(|u: U| (u.model().type_tag, u.model().serial))
}

/// Whether every asset in the list can serialize itself.
pub open spec fn all_serializable<U: ErasedAsset>(assets: Seq<U>) -> bool {
    forall|i: int| 0 <= i < assets.len() ==> (#[trigger] assets[i].model()).serializable
}

/// An ephemeral, mutable, ordered list of type-erased assets, consumed by
/// `compile`. Insertion order is preserved into the container.
pub struct Compiler<U> {
    /// The assets added so far, in insertion order.
    pub assets: Vec<U>,
}

impl<U: ErasedAsset> Compiler<U> {
    /// Creates a new compiler with an empty asset list.
    pub fn new() -> (r: Self)
        ensures
            r.assets@ == Seq::<U>::empty(),
    {
        Compiler { assets: Vec::new() }
    }

    /// Appends a type-erased asset to the list. No deduplication and no
    /// validation of name or tag uniqueness is performed.
    pub fn add_asset(&mut self, asset: U)
        ensures
            final(self).assets@ == old(self).assets@.push(asset),
    {
        self.assets.push(asset);
    }

    /// Serializes every added asset, in insertion order, into one binary
    /// container. If any asset fails to serialize, the whole compile
    /// aborts with that serialization error and produces no output.
    ///
    /// The result is a function of the asset list alone, so compiling an
    /// unchanged compiler again returns byte-identical output.
    pub fn compile(&self) -> (r: Result<Vec<u8>, Error>)
        ensures
            all_serializable(self.assets@) ==> (r matches Ok(v) && v@ == container_encoding(
                spec_entries(self.assets@),
            )),
            !all_serializable(self.assets@) ==> (r matches Err(e) && e is Serialization),
    {
        let mut entries: Vec<(String, Vec<u8>)> = Vec::new();
        let mut i: usize = 0;
        while i < self.assets.len()
            invariant
                i <= self.assets@.len(),
                entries@.len() == i,
                forall|j: int| 0 <= j < i ==> (#[trigger] self.assets@[j].model()).serializable,
                forall|j: int|
                    0 <= j < i ==> entries_view(entries@)[j] == spec_entries(self.assets@)[j],
            decreases self.assets@.len() - i,
        {
            let u = &self.assets[i];
            let tag = u.type_tag();
            let bytes = match u.to_bytes() {
                Ok(b) => b,
                Err(e) => {
                    return Err(e);
                },
            };
            let ghost entries0 = entries@;
            entries.push((tag, bytes));
            proof {
                assert forall|j: int| 0 <= j < i + 1 implies entries_view(entries@)[j]
                    == spec_entries(self.assets@)[j] by {
                    if j < i {
                        assert(entries@[j] == entries0[j]);
                        assert(entries_view(entries0)[j] == spec_entries(self.assets@)[j]);
                    } else {
                        assert(entries@[j].0 == tag);
                        assert(entries@[j].1 == bytes);
                    }
                }
            }
            i += 1;
        }
        proof {
            assert(entries_view(entries@) =~= spec_entries(self.assets@));
        }
        Ok(encode_container(&entries))
    }
}

/// Idempotent compile: two compiles of one unchanged asset list are
/// pinned to the same byte stream, so repeated calls of `compile` on the
/// same compiler state return byte-identical output.
pub proof fn lemma_compile_idempotent<U: ErasedAsset>(assets: Seq<U>, b1: Seq<u8>, b2: Seq<u8>)
    requires
        all_serializable(assets),
        b1 == container_encoding(spec_entries(assets)),
        b2 == container_encoding(spec_entries(assets)),
    ensures
        b1 == b2,
{
}

impl<U: ErasedAsset> Default for Compiler<U> {
    /// Creates a new compiler with an empty asset list.
    fn default() -> (r: Self)
        ensures
            r.assets@ == Seq::<U>::empty(),
    {
        Compiler::new()
    }
}

} // verus!
