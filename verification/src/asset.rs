//! The asset contract: the capability set every asset record type provides,
//! and the type-erased form the compiler and the registry operate on.

use vstd::prelude::*;

use crate::error::Error;
use crate::type_id::Type;

verus! {

/// The specification-level projection of an asset: everything the core ever
/// observes about one record, independent of its concrete type.
#[verifier::ext_equal]
pub struct AssetModel {
    /// The process-local identity of the record's concrete type.
    pub ty: Type,
    /// The stable wire tag naming the concrete type.
    pub type_tag: Seq<char>,
    /// The record's logical instance identifier.
    pub name: Seq<char>,
    /// Whether the record can serialize itself.
    pub serializable: bool,
    /// The record's serialized payload (meaningful when `serializable`).
    pub serial: Seq<u8>,
}

/// The capability set every concrete asset record type implements.
///
/// Implementors supply a process-local type identity, a stable type name
/// used as the wire tag, a per-instance logical name, and byte-exact
/// serialization in both directions. The contract on `from_bytes` is the
/// round-trip law: it accepts everything `to_bytes` produces for any
/// serializable instance and reconstructs a record with the same
/// observable content.
pub trait Asset: Sized {
    /// The identity value shared by all instances of this type.
    spec fn spec_type_identity() -> Type;

    /// The wire tag naming this type.
    spec fn spec_type_tag() -> Seq<char>;

    /// This instance's logical identifier.
    spec fn spec_name(&self) -> Seq<char>;

    /// Whether this instance can serialize itself.
    spec fn spec_serializable(&self) -> bool;

    /// The bytes `to_bytes` produces for this instance.
    spec fn spec_serial(&self) -> Seq<u8>;

    /// Returns the type identity shared by all instances of this type;
    /// distinct concrete types must pick distinct values.
    fn type_identity() -> (t: Type)
        ensures
            t == Self::spec_type_identity(),
    ;

    /// Returns the stable type name used as the wire-level type tag.
    fn type_tag() -> (s: String)
        ensures
            s@ == Self::spec_type_tag(),
    ;

    /// Returns this instance's runtime type identity.
    fn get_type(&self) -> (t: Type)
        ensures
            t == Self::spec_type_identity(),
    {
        Self::type_identity()
    }

    /// Returns the logical identifier carried by this instance.
    fn name(&self) -> (s: String)
        ensures
            s@ == self.spec_name(),
    ;

    /// Serializes the asset to a byte array.
    fn to_bytes(&self) -> (r: Result<Vec<u8>, Error>)
        ensures
            self.spec_serializable() ==> (r matches Ok(v) && v@ == self.spec_serial()),
            !self.spec_serializable() ==> (r matches Err(e) && e is Serialization),
    ;

    /// Deserializes the asset from a byte array. For every serializable
    /// instance whose serialization equals the input, the result is a
    /// record with the same observable content (round-trip law).
    fn from_bytes(bytes: &[u8]) -> (r: Result<Self, Error>)
        ensures
            forall|a: Self|
                a.spec_serializable() && bytes@ == #[trigger] a.spec_serial() ==> (r matches Ok(b)
                    && b.spec_serializable() && b.spec_name() == a.spec_name() && b.spec_serial()
                    == a.spec_serial()),
            r matches Err(e) ==> e is Deserialization,
    ;
}

/// The model of a concrete record seen through the type-erased interface.
pub open spec fn model_of<T: Asset>(t: T) -> AssetModel {
    AssetModel {
        ty: T::spec_type_identity(),
        type_tag: T::spec_type_tag(),
        name: t.spec_name(),
        serializable: t.spec_serializable(),
        serial: t.spec_serial(),
    }
}

/// The type-erased form of a family of asset record types: what the
/// compiler stores and the registry reconstructs. A caller typically
/// implements it on an enum with one variant per concrete record type.
///
/// `decode` is the dispatch step consulted at load time: handed a wire
/// tag and a payload, it must reconstruct the record of the tagged type.
pub trait ErasedAsset: Sized {
    /// Everything the core observes about this erased asset.
    spec fn model(&self) -> AssetModel;

    /// Returns the runtime type identity of the wrapped record.
    fn get_type(&self) -> (t: Type)
        ensures
            t == self.model().ty,
    ;

    /// Returns the wire tag of the wrapped record's type.
    fn type_tag(&self) -> (s: String)
        ensures
            s@ == self.model().type_tag,
    ;

    /// Returns the wrapped record's logical identifier.
    fn name(&self) -> (s: String)
        ensures
            s@ == self.model().name,
    ;

    /// Serializes the wrapped record.
    fn to_bytes(&self) -> (r: Result<Vec<u8>, Error>)
        ensures
            self.model().serializable ==> (r matches Ok(v) && v@ == self.model().serial),
            !self.model().serializable ==> (r matches Err(e) && e is Serialization),
    ;

    /// Reconstructs an erased asset from a wire tag and a payload. For
    /// every erased asset whose tag and serialization equal the input,
    /// the result carries the same observable content.
    fn decode(type_tag: &str, bytes: &[u8]) -> (r: Result<Self, Error>)
        ensures
            forall|u: Self|
                (#[trigger] u.model()).serializable && u.model().type_tag == type_tag@
                    && u.model().serial == bytes@ ==> (r matches Ok(v) && v.model() == u.model()),
            r matches Ok(v) ==> v.model().type_tag == type_tag@,
    ;
}

/// Safe re-specialization of a type-erased asset back to the concrete
/// record type `T`: the replacement for a downcast through a reflection
/// runtime. Succeeding is gated on type-identity equality alone.
pub trait Downcast<T: Asset>: ErasedAsset {
    /// Returns a reference to the wrapped record if and only if the
    /// erased asset's type identity is `T`'s.
    fn downcast_ref(&self) -> (r: Option<&T>)
        ensures
            (r is Some) <==> self.model().ty == T::spec_type_identity(),
            r matches Some(t) ==> model_of(*t) == self.model(),
    ;
}

} // verus!
