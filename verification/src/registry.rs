//! The registry: dispatch-table-driven reconstruction of a binary
//! container into type-erased assets, and type-identity-gated lookup
//! over the reconstructed list.

use vstd::prelude::*;

use crate::asset::Asset;
use crate::asset::AssetModel;
use crate::asset::Downcast;
use crate::asset::ErasedAsset;
use crate::asset::model_of;
use crate::codec::container_encoding;
use crate::codec::decode_container;
use crate::codec::entries_view;
use crate::compiler::all_serializable;
use crate::compiler::spec_entries;
use crate::error::Error;
use crate::strutil::str_eq;
use crate::type_id::Type;

verus! {

/// Whether the erased asset `u` is a reconstruction of the container
/// entry `e`: serializable, tagged like `e`, and serializing to `e`'s
/// payload.
pub open spec fn entry_decodes_to<U: ErasedAsset>(e: (Seq<char>, Seq<u8>), u: U) -> bool {
    u.model().serializable && u.model().type_tag == e.0 && u.model().serial == e.1
}

/// Whether some erased asset reconstructs the container entry `e`.
pub open spec fn entry_decodable<U: ErasedAsset>(e: (Seq<char>, Seq<u8>)) -> bool {
    exists|u: U| entry_decodes_to(e, u)
}

/// Whether every tag occurring in the entry list has a dispatcher in the
/// table.
pub open spec fn all_tags_registered(table: Seq<Seq<char>>, es: Seq<(Seq<char>, Seq<u8>)>) -> bool {
    forall|i: int| 0 <= i < es.len() ==> table.contains((#[trigger] es[i]).0)
}

/// Whether every entry in the list can be reconstructed by some erased
/// asset.
pub open spec fn all_entries_decodable<U: ErasedAsset>(es: Seq<(Seq<char>, Seq<u8>)>) -> bool {
    forall|i: int| 0 <= i < es.len() ==> entry_decodable::<U>(#[trigger] es[i])
}

/// Whether the erased asset `u` answers a typed lookup for type identity
/// `ty` under logical name `name`.
pub open spec fn query_matches<U: ErasedAsset>(u: U, ty: Type, name: Seq<char>) -> bool {
    u.model().ty == ty && u.model().name == name
}

/// `filter` distributes over appending one element.
proof fn lemma_filter_push<A>(s: Seq<A>, x: A, pred: spec_fn(A) -> bool)
    ensures
        s.push(x).filter(pred) == if pred(x) {
            s.filter(pred).push(x)
        } else {
            s.filter(pred)
        },
{
    reveal_with_fuel(Seq::filter, 2);
    assert(s.push(x).drop_last() =~= s);
    assert(s.push(x).last() == x);
    assert(s.push(x).len() == s.len() + 1);
}

/// A read-only, queryable collection of reconstructed assets, together
/// with the dispatch table it was built with. Immutable after `load`.
pub struct Registry<U> {
    table: Vec<String>,
    assets: Vec<U>,
}

/// A transient staging object: accumulates dispatch-table entries, then
/// is consumed by `load`, which decodes a binary container and yields the
/// finished registry or an error.
pub struct RegistryBuilder<U> {
    registry: Registry<U>,
}

impl<U: ErasedAsset> Registry<U> {
    /// The registered type tags, in registration order.
    pub closed spec fn spec_table(&self) -> Seq<Seq<char>> {
        self.table@.map_values(|s: String| s@)
    }

    /// Whether `tag` has a registered dispatcher.
    pub open spec fn spec_registered(&self, tag: Seq<char>) -> bool {
        self.spec_table().contains(tag)
    }

    /// The reconstructed assets, in container order.
    pub closed spec fn spec_assets(&self) -> Seq<U> {
        self.assets@
    }

    fn new() -> (r: Self)
        ensures
            r.spec_table() == Seq::<Seq<char>>::empty(),
            r.spec_assets() == Seq::<U>::empty(),
    {
        let r = Registry { table: Vec::new(), assets: Vec::new() };
        proof {
            assert(r.spec_table() =~= Seq::<Seq<char>>::empty());
        }
        r
    }

    /// Registers the asset type `T` in the dispatch table under `T`'s
    /// type tag.
    fn reg_type<T: Asset>(&mut self)
        ensures
            final(self).spec_table() == old(self).spec_table().push(T::spec_type_tag()),
            final(self).spec_assets() == old(self).spec_assets(),
    {
        let tag = T::type_tag();
        self.table.push(tag);
        proof {
            assert(self.spec_table() =~= old(self).spec_table().push(T::spec_type_tag()));
        }
    }

    /// Whether `tag` is present in the dispatch table.
    fn is_registered(&self, tag: &str) -> (r: bool)
        ensures
            r == self.spec_registered(tag@),
    {
        let mut i: usize = 0;
        while i < self.table.len()
            invariant
                i <= self.table@.len(),
                forall|j: int| 0 <= j < i ==> self.spec_table()[j] != tag@,
            decreases self.table@.len() - i,
        {
            if str_eq(self.table[i].as_str(), tag) {
                proof {
                    assert(self.spec_table()[i as int] == tag@);
                }
                return true;
            }
            i += 1;
        }
        proof {
            if self.spec_table().contains(tag@) {
                let j = choose|j: int|
                    0 <= j < self.spec_table().len() && self.spec_table()[j] == tag@;
                assert(self.spec_table()[j] != tag@);
            }
        }
        false
    }

    /// Creates a new builder with an empty dispatch table.
    pub fn builder() -> (r: RegistryBuilder<U>)
        ensures
            r.spec_table() == Seq::<Seq<char>>::empty(),
            r.spec_assets() == Seq::<U>::empty(),
    {
        RegistryBuilder::new()
    }

    /// The total number of assets in the registry.
    pub fn amount(&self) -> (r: usize)
        ensures
            r == self.spec_assets().len(),
    {
        self.assets.len()
    }

    /// Looks up the first asset, in insertion order, whose concrete type
    /// is `T` and whose logical name equals `name`. The type-identity
    /// comparison gates the re-specialization, so a matching name on an
    /// asset of another type is never returned.
    pub fn get_asset<'a, T: Asset>(&'a self, name: &str) -> (r: Option<&'a T>) where
        U: Downcast<T>,

        ensures
            (match r {
                Some(t) => exists|i: int|
                    0 <= i < self.spec_assets().len() && query_matches(
                        #[trigger] self.spec_assets()[i],
                        T::spec_type_identity(),
                        name@,
                    ) && model_of(*t) == self.spec_assets()[i].model() && (forall|j: int|
                        0 <= j < i ==> !query_matches(
                            #[trigger] self.spec_assets()[j],
                            T::spec_type_identity(),
                            name@,
                        )),
                None => forall|i: int|
                    0 <= i < self.spec_assets().len() ==> !query_matches(
                        #[trigger] self.spec_assets()[i],
                        T::spec_type_identity(),
                        name@,
                    ),
            }),
    {
        let ty = T::type_identity();
        let mut i: usize = 0;
        while i < self.assets.len()
            invariant
                i <= self.assets@.len(),
                ty == T::spec_type_identity(),
                forall|j: int|
                    0 <= j < i ==> !query_matches(
                        #[trigger] self.spec_assets()[j],
                        T::spec_type_identity(),
                        name@,
                    ),
            decreases self.assets@.len() - i,
        {
            let u = &self.assets[i];
            if u.get_type() == ty {
                let unm = u.name();
                if str_eq(unm.as_str(), name) {
                    proof {
                        assert(query_matches(
                            self.spec_assets()[i as int],
                            T::spec_type_identity(),
                            name@,
                        ));
                    }
                    let d: Option<&T> = u.downcast_ref();
                    match d {
                        Some(t) => {
                            return Some(t);
                        },
                        None => {
                            proof {
                                assert(false);
                            }
                            return None;
                        },
                    }
                }
            }
            i += 1;
        }
        None
    }

    /// Returns references to all assets of type `T`, preserving insertion
    /// order. May be empty; never an error.
    pub fn get_assets<'a, T: Asset>(&'a self) -> (r: Vec<&'a T>) where U: Downcast<T>
        ensures
            r@.map_values(|t: &T| model_of(*t)) == self.spec_assets().map_values(
                |u: U| u.model(),
            ).filter(|m: AssetModel| m.ty == T::spec_type_identity()),
    {
        let ty = T::type_identity();
        let mut r: Vec<&'a T> = Vec::new();
        let mut i: usize = 0;
        proof {
            reveal_with_fuel(Seq::filter, 2);
            assert(self.spec_assets().map_values(|u: U| u.model()).take(0) =~= Seq::<
                AssetModel,
            >::empty());
            assert(r@.map_values(|t: &T| model_of(*t)) =~= Seq::<AssetModel>::empty());
        }
        while i < self.assets.len()
            invariant
                i <= self.assets@.len(),
                ty == T::spec_type_identity(),
                r@.map_values(|t: &T| model_of(*t)) == self.spec_assets().map_values(
                    |u: U| u.model(),
                ).take(i as int).filter(|m: AssetModel| m.ty == T::spec_type_identity()),
            decreases self.assets@.len() - i,
        {
            let ghost models = self.spec_assets().map_values(|u: U| u.model());
            let ghost r0 = r@;
            let u = &self.assets[i];
            let d: Option<&T> = u.downcast_ref();
            proof {
                assert(models.take(i + 1).drop_last() =~= models.take(i as int));
                assert(models.take(i + 1) =~= models.take(i as int).push(models[i as int]));
                lemma_filter_push(
                    models.take(i as int),
                    models[i as int],
                    |m: AssetModel| m.ty == T::spec_type_identity(),
                );
            }
            match d {
                Some(t) => {
                    r.push(t);
                    proof {
                        assert(r@.map_values(|t: &T| model_of(*t)) =~= r0.map_values(
                            |t: &T| model_of(*t),
                        ).push(model_of(*t)));
                        assert(model_of(*t) == models[i as int]);
                    }
                },
                None => {
                    proof {
                        assert(!(|m: AssetModel| m.ty == T::spec_type_identity())(
                            models[i as int],
                        ));
                    }
                },
            }
            i += 1;
        }
        proof {
            assert(self.spec_assets().map_values(|u: U| u.model()).take(
                self.spec_assets().len() as int,
            ) =~= self.spec_assets().map_values(|u: U| u.model()));
        }
        r
    }

    /// Returns the full backing list, read-only, in original insertion
    /// and compile order.
    pub fn get_all_assets(&self) -> (r: &Vec<U>)
        ensures
            r@ == self.spec_assets(),
    {
        &self.assets
    }
}

impl<U: ErasedAsset> RegistryBuilder<U> {
    /// The registered type tags, in registration order.
    pub closed spec fn spec_table(&self) -> Seq<Seq<char>> {
        self.registry.spec_table()
    }

    /// The assets staged so far (always empty until `load`).
    pub closed spec fn spec_assets(&self) -> Seq<U> {
        self.registry.spec_assets()
    }

    /// Creates a new builder with an empty dispatch table.
    pub fn new() -> (r: Self)
        ensures
            r.spec_table() == Seq::<Seq<char>>::empty(),
            r.spec_assets() == Seq::<U>::empty(),
    {
        RegistryBuilder { registry: Registry::new() }
    }

    /// Registers the asset type `T` in the dispatch table under `T`'s
    /// type tag. Must be called for every concrete type that may appear
    /// in the container handed to `load`.
    pub fn reg_type<T: Asset>(self) -> (r: Self)
        ensures
            r.spec_table() == self.spec_table().push(T::spec_type_tag()),
            r.spec_assets() == self.spec_assets(),
    {
        let mut this = self;
        this.registry.reg_type::<T>();
        this
    }

    /// Decodes a binary container and reconstructs every entry, in order,
    /// through the dispatch table. All-or-nothing: a malformed container,
    /// an entry whose tag has no dispatcher (a `TypeNotFound` error naming
    /// the tag), or a failing dispatcher aborts the whole load, and no
    /// registry is produced.
    pub fn load(self, binary: &[u8]) -> (r: Result<Registry<U>, Error>)
        ensures
            r matches Ok(reg) ==> reg.spec_table() == self.spec_table(),
            r matches Ok(reg) ==> forall|i: int|
                0 <= i < reg.spec_assets().len() ==> reg.spec_table().contains(
                    (#[trigger] reg.spec_assets()[i]).model().type_tag,
                ),
            forall|es: Seq<(Seq<char>, Seq<u8>)>|
                binary@ == #[trigger] container_encoding(es) && all_tags_registered(
                    self.spec_table(),
                    es,
                ) && all_entries_decodable::<U>(es) ==> (r matches Ok(reg)
                    && reg.spec_assets().len() == es.len() && (forall|i: int, u: U|
                    0 <= i < es.len() && #[trigger] entry_decodes_to(es[i], u) ==> (
                    #[trigger] reg.spec_assets()[i]).model() == u.model())),
            forall|es: Seq<(Seq<char>, Seq<u8>)>, i: int|
                #![trigger container_encoding(es), es[i]]
                binary@ == container_encoding(es) && 0 <= i < es.len()
                    && !self.spec_table().contains(es[i].0) && (forall|j: int|
                    0 <= j < i ==> self.spec_table().contains((#[trigger] es[j]).0)
                        && entry_decodable::<U>(es[j])) ==> (r matches Err(e) && e matches Error::TypeNotFound(
                    s,
                ) && s@ == es[i].0),
    {
        let entries = match decode_container(binary) {
            Ok(v) => v,
            Err(e) => {
                return Err(e);
            },
        };
        let ghost es0 = entries_view(entries@);
        let mut assets: Vec<U> = Vec::new();
        let mut k: usize = 0;
        while k < entries.len()
            invariant
                k <= entries@.len(),
                assets@.len() == k,
                es0 == entries_view(entries@),
                es0.len() == entries@.len(),
                forall|es: Seq<(Seq<char>, Seq<u8>)>|
                    binary@ == #[trigger] container_encoding(es) ==> es == es0,
                forall|j: int| 0 <= j < k ==> self.spec_table().contains((#[trigger] es0[j]).0),
                forall|j: int| 0 <= j < k ==> (#[trigger] assets@[j]).model().type_tag == es0[j].0,
                forall|j: int, u: U|
                    0 <= j < k && #[trigger] entry_decodes_to(es0[j], u) ==> (
                    #[trigger] assets@[j]).model() == u.model(),
            decreases entries@.len() - k,
        {
            let e = &entries[k];
            proof {
                assert(es0[k as int] == (e.0@, e.1@));
            }
            if !self.registry.is_registered(e.0.as_str()) {
                let tag = e.0.clone();
                proof {
                    assert forall|es: Seq<(Seq<char>, Seq<u8>)>|
                        binary@ == #[trigger] container_encoding(es) implies !all_tags_registered(
                        self.spec_table(),
                        es,
                    ) by {
                        assert(es == es0);
                        assert(!self.spec_table().contains((es0[k as int]).0));
                    }
                    assert forall|es: Seq<(Seq<char>, Seq<u8>)>, i: int|
                        #![trigger container_encoding(es), es[i]]
                        binary@ == container_encoding(es) && 0 <= i < es.len()
                            && !self.spec_table().contains(es[i].0) && (forall|j: int|
                            0 <= j < i ==> self.spec_table().contains((#[trigger] es[j]).0)
                                && entry_decodable::<U>(es[j])) implies tag@ == es[i].0 by {
                        assert(es == es0);
                        if i < k {
                            assert(self.spec_table().contains((es0[i]).0));
                            assert(false);
                        } else if i > k {
                            assert(self.spec_table().contains((es[k as int]).0));
                            assert(false);
                        }
                    }
                }
                return Err(Error::TypeNotFound(tag));
            }
            let u = match U::decode(e.0.as_str(), e.1.as_slice()) {
                Ok(u) => u,
                Err(err) => {
                    proof {
                        assert forall|es: Seq<(Seq<char>, Seq<u8>)>|
                            binary@ == #[trigger] container_encoding(es) implies !(
                        all_tags_registered(self.spec_table(), es) && all_entries_decodable::<U>(
                            es,
                        )) by {
                            assert(es == es0);
                            if all_entries_decodable::<U>(es) {
                                assert(entry_decodable::<U>(es0[k as int]));
                                let w = choose|w: U| entry_decodes_to(es0[k as int], w);
                                assert(w.model().serializable && w.model().type_tag == e.0@
                                    && w.model().serial == e.1@);
                                assert(false);
                            }
                        }
                        assert forall|es: Seq<(Seq<char>, Seq<u8>)>, i: int|
                            #![trigger container_encoding(es), es[i]]
                            binary@ == container_encoding(es) && 0 <= i < es.len()
                                && !self.spec_table().contains(es[i].0) && (forall|j: int|
                                0 <= j < i ==> self.spec_table().contains((#[trigger] es[j]).0)
                                    && entry_decodable::<U>(es[j])) implies false by {
                            assert(es == es0);
                            if i < k {
                                assert(self.spec_table().contains((es0[i]).0));
                            } else if i == k {
                                assert(self.spec_table().contains((es0[k as int]).0));
                            } else {
                                assert(entry_decodable::<U>(es0[k as int]));
                                let w = choose|w: U| entry_decodes_to(es0[k as int], w);
                                assert(w.model().serializable && w.model().type_tag == e.0@
                                    && w.model().serial == e.1@);
                            }
                        }
                    }
                    return Err(err);
                },
            };
            let ghost assets0 = assets@;
            assets.push(u);
            proof {
                assert forall|j: int, w: U|
                    0 <= j < k + 1 && #[trigger] entry_decodes_to(es0[j], w) implies (
                #[trigger] assets@[j]).model() == w.model() by {
                    if j < k {
                        assert(assets0[j].model() == w.model());
                        assert(assets@[j] == assets0[j]);
                    } else {
                        assert(w.model().serializable && w.model().type_tag == e.0@
                            && w.model().serial == e.1@);
                    }
                }
            }
            k += 1;
        }
        let reg = Registry { table: self.registry.table, assets };
        proof {
            assert(reg.spec_table() == self.spec_table());
            assert(reg.spec_assets().len() == es0.len());
        }
        Ok(reg)
    }
}

/// A compiled container of serializable assets whose tags are all in the
/// table meets `load`'s success conditions: every tag is registered and
/// every entry is reconstructible (by the asset it was compiled from).
pub proof fn lemma_compiled_container_loads<U: ErasedAsset>(assets: Seq<U>, table: Seq<Seq<char>>)
    requires
        all_serializable(assets),
        forall|i: int|
            0 <= i < assets.len() ==> table.contains(
                (#[trigger] assets[i]).model().type_tag,
            ),
    ensures
        all_tags_registered(table, spec_entries(assets)),
        all_entries_decodable::<U>(spec_entries(assets)),
{
    let es = spec_entries(assets);
    assert forall|i: int| 0 <= i < es.len() implies table.contains((#[trigger] es[i]).0) by {
        assert(es[i].0 == assets[i].model().type_tag);
    }
    assert forall|i: int| 0 <= i < es.len() implies entry_decodable::<U>(#[trigger] es[i]) by {
        assert(entry_decodes_to(es[i], assets[i]));
    }
}

/// Container round-trip law: a loaded list that reconstructs the entries
/// `compile` wrote for `assets` carries, position for position, exactly
/// the observable content of `assets` — same order, same types, same
/// names, same payloads.
pub proof fn lemma_container_round_trip<U: ErasedAsset>(assets: Seq<U>, loaded: Seq<U>)
    requires
        all_serializable(assets),
        loaded.len() == spec_entries(assets).len(),
        forall|i: int, u: U|
            0 <= i < spec_entries(assets).len() && #[trigger] entry_decodes_to(
                spec_entries(assets)[i],
                u,
            ) ==> loaded[i].model() == u.model(),
    ensures
        loaded.len() == assets.len(),
        forall|i: int|
            0 <= i < assets.len() ==> (#[trigger] loaded[i]).model() == assets[i].model(),
{
    let es = spec_entries(assets);
    assert forall|i: int|
        0 <= i < assets.len() implies (#[trigger] loaded[i]).model() == assets[i].model() by {
        assert(entry_decodes_to(es[i], assets[i]));
    }
}

impl<U: ErasedAsset> Default for RegistryBuilder<U> {
    /// Creates a new builder with an empty dispatch table.
    fn default() -> (r: Self)
        ensures
            r.spec_table() == Seq::<Seq<char>>::empty(),
            r.spec_assets() == Seq::<U>::empty(),
    {
        RegistryBuilder::new()
    }
}

} // verus!
