//! Reference implementations of the asset contract: two concrete record
//! types, the type-erased family covering them, and the registration
//! step an application performs once at startup.

use vstd::prelude::*;
use vstd::bytes::lemma_auto_spec_u64_to_from_le_bytes;
use vstd::bytes::spec_u64_to_le_bytes;
use vstd::bytes::u64_from_le_bytes;
use vstd::bytes::u64_to_le_bytes;
use vstd::slice::slice_subrange;

use crate::asset::Asset;
use crate::asset::AssetModel;
use crate::asset::Downcast;
use crate::asset::ErasedAsset;
use crate::asset::model_of;
use crate::codec::container_encoding;
use crate::error::Error;
use crate::registry::Registry;
use crate::registry::all_entries_decodable;
use crate::registry::all_tags_registered;
use crate::registry::entry_decodable;
use crate::registry::entry_decodes_to;
use crate::strutil::str_eq;
use crate::type_id::Type;
use crate::wire::parse_string_block;
use crate::wire::push_string_block;
use crate::wire::spec_string_block;

verus! {

/// A two-dimensional sprite record: a logical name and a pixel size.
#[derive(Debug)]
pub struct SpriteRecord {
    /// The logical instance identifier.
    pub name: String,
    /// Width and height in pixels.
    pub size: (u64, u64),
}

/// The serialization of a sprite: its name block, then width and height
/// as eight little-endian bytes each.
pub open spec fn spec_sprite_serial(name: Seq<char>, w: u64, h: u64) -> Seq<u8> {
    spec_string_block(name) + spec_u64_to_le_bytes(w) + spec_u64_to_le_bytes(h)
}

impl Asset for SpriteRecord {
    open spec fn spec_type_identity() -> Type {
        Type(1)
    }

    open spec fn spec_type_tag() -> Seq<char> {
        "sprite"@
    }

    open spec fn spec_name(&self) -> Seq<char> {
        self.name@
    }

    open spec fn spec_serializable(&self) -> bool {
        true
    }

    open spec fn spec_serial(&self) -> Seq<u8> {
        spec_sprite_serial(self.name@, self.size.0, self.size.1)
    }

    fn type_identity() -> (t: Type) {
        Type(1)
    }

    fn type_tag() -> (s: String) {
        "sprite".to_owned()
    }

    fn name(&self) -> (s: String) {
        self.name.clone()
    }

    fn to_bytes(&self) -> (r: Result<Vec<u8>, Error>) {
        let mut out: Vec<u8> = Vec::new();
        push_string_block(&mut out, self.name.as_str());
        let mut wb = u64_to_le_bytes(self.size.0);
        out.append(&mut wb);
        let mut hb = u64_to_le_bytes(self.size.1);
        out.append(&mut hb);
        proof {
            assert(out@ =~= self.spec_serial());
        }
        Ok(out)
    }

    /// Round trips field for field: on the serialization of any sprite,
    /// the reconstructed record carries the same name and the same size.
    fn from_bytes(bytes: &[u8]) -> (r: Result<Self, Error>)
        ensures
            forall|a: SpriteRecord|
                a.spec_serializable() && bytes@ == #[trigger] a.spec_serial() ==> (r matches Ok(b)
                    && b.name@ == a.name@ && b.size == a.size),
    {
        proof {
            lemma_auto_spec_u64_to_from_le_bytes();
        }
        let parsed = parse_string_block(bytes, 16);
        match parsed {
            Some(name) => {
                let n = bytes.len() - 16;
                let w = u64_from_le_bytes(slice_subrange(bytes, n, n + 8));
                let h = u64_from_le_bytes(slice_subrange(bytes, n + 8, n + 16));
                let rec = SpriteRecord { name, size: (w, h) };
                proof {
                    assert forall|a: SpriteRecord|
                        a.spec_serializable() && bytes@ == #[trigger] a.spec_serial() implies
                    rec.spec_serializable() && rec.spec_name() == a.spec_name()
                        && rec.spec_serial() == a.spec_serial() && rec.name@ == a.name@
                        && rec.size == a.size by {
                        let rest = spec_u64_to_le_bytes(a.size.0) + spec_u64_to_le_bytes(a.size.1);
                        assert(bytes@ == spec_string_block(a.name@) + rest && rest.len() == 16)
                            by {
                            assert(bytes@ =~= spec_string_block(a.name@) + rest);
                        }
                        assert(rec.name@ == a.name@);
                        assert(bytes@.subrange(n as int, n + 8) =~= spec_u64_to_le_bytes(
                            a.size.0,
                        ));
                        assert(bytes@.subrange(n + 8, n + 16) =~= spec_u64_to_le_bytes(a.size.1));
                        assert(w == a.size.0 && h == a.size.1);
                    }
                }
                Ok(rec)
            },
            None => {
                proof {
                    assert forall|a: SpriteRecord|
                        a.spec_serializable() && bytes@ == #[trigger] a.spec_serial() implies
                    false by {
                        let rest = spec_u64_to_le_bytes(a.size.0) + spec_u64_to_le_bytes(a.size.1);
                        assert(bytes@ == spec_string_block(a.name@) + rest && rest.len() == 16)
                            by {
                            assert(bytes@ =~= spec_string_block(a.name@) + rest);
                        }
                    }
                }
                Err(Error::Deserialization("malformed sprite record".to_owned()))
            },
        }
    }
}

/// A label record: a logical name and one numeric value.
#[derive(Debug)]
pub struct LabelRecord {
    /// The logical instance identifier.
    pub name: String,
    /// The value carried by the label.
    pub value: u64,
}

/// The serialization of a label: its name block, then the value as eight
/// little-endian bytes.
pub open spec fn spec_label_serial(name: Seq<char>, value: u64) -> Seq<u8> {
    spec_string_block(name) + spec_u64_to_le_bytes(value)
}

impl Asset for LabelRecord {
    open spec fn spec_type_identity() -> Type {
        Type(2)
    }

    open spec fn spec_type_tag() -> Seq<char> {
        "label"@
    }

    open spec fn spec_name(&self) -> Seq<char> {
        self.name@
    }

    open spec fn spec_serializable(&self) -> bool {
        true
    }

    open spec fn spec_serial(&self) -> Seq<u8> {
        spec_label_serial(self.name@, self.value)
    }

    fn type_identity() -> (t: Type) {
        Type(2)
    }

    fn type_tag() -> (s: String) {
        "label".to_owned()
    }

    fn name(&self) -> (s: String) {
        self.name.clone()
    }

    fn to_bytes(&self) -> (r: Result<Vec<u8>, Error>) {
        let mut out: Vec<u8> = Vec::new();
        push_string_block(&mut out, self.name.as_str());
        let mut vb = u64_to_le_bytes(self.value);
        out.append(&mut vb);
        proof {
            assert(out@ =~= self.spec_serial());
        }
        Ok(out)
    }

    /// Round trips field for field: on the serialization of any label,
    /// the reconstructed record carries the same name and the same value.
    fn from_bytes(bytes: &[u8]) -> (r: Result<Self, Error>)
        ensures
            forall|a: LabelRecord|
                a.spec_serializable() && bytes@ == #[trigger] a.spec_serial() ==> (r matches Ok(b)
                    && b.name@ == a.name@ && b.value == a.value),
    {
        proof {
            lemma_auto_spec_u64_to_from_le_bytes();
        }
        let parsed = parse_string_block(bytes, 8);
        match parsed {
            Some(name) => {
                let n = bytes.len() - 8;
                let value = u64_from_le_bytes(slice_subrange(bytes, n, n + 8));
                let rec = LabelRecord { name, value };
                proof {
                    assert forall|a: LabelRecord|
                        a.spec_serializable() && bytes@ == #[trigger] a.spec_serial() implies
                    rec.spec_serializable() && rec.spec_name() == a.spec_name()
                        && rec.spec_serial() == a.spec_serial() && rec.name@ == a.name@
                        && rec.value == a.value by {
                        let rest = spec_u64_to_le_bytes(a.value);
                        assert(bytes@ == spec_string_block(a.name@) + rest && rest.len() == 8);
                        assert(rec.name@ == a.name@);
                        assert(bytes@.subrange(n as int, n + 8) =~= spec_u64_to_le_bytes(a.value));
                        assert(value == a.value);
                    }
                }
                Ok(rec)
            },
            None => {
                proof {
                    assert forall|a: LabelRecord|
                        a.spec_serializable() && bytes@ == #[trigger] a.spec_serial() implies
                    false by {
                        let rest = spec_u64_to_le_bytes(a.value);
                        assert(bytes@ == spec_string_block(a.name@) + rest && rest.len() == 8);
                    }
                }
                Err(Error::Deserialization("malformed label record".to_owned()))
            },
        }
    }
}

/// The type-erased family covering the bundled record types: the
/// homogeneous form the compiler stores and the registry reconstructs.
#[derive(Debug)]
pub enum SampleAsset {
    /// A wrapped sprite record.
    Sprite(SpriteRecord),
    /// A wrapped label record.
    Label(LabelRecord),
}

impl ErasedAsset for SampleAsset {
    open spec fn model(&self) -> AssetModel {
        match self {
            SampleAsset::Sprite(t) => model_of::<SpriteRecord>(*t),
            SampleAsset::Label(t) => model_of::<LabelRecord>(*t),
        }
    }

    fn get_type(&self) -> (t: Type) {
        match self {
            SampleAsset::Sprite(t) => t.get_type(),
            SampleAsset::Label(t) => t.get_type(),
        }
    }

    fn type_tag(&self) -> (s: String) {
        match self {
            SampleAsset::Sprite(_) => SpriteRecord::type_tag(),
            SampleAsset::Label(_) => LabelRecord::type_tag(),
        }
    }

    fn name(&self) -> (s: String) {
        match self {
            SampleAsset::Sprite(t) => t.name(),
            SampleAsset::Label(t) => t.name(),
        }
    }

    fn to_bytes(&self) -> (r: Result<Vec<u8>, Error>) {
        match self {
            SampleAsset::Sprite(t) => t.to_bytes(),
            SampleAsset::Label(t) => t.to_bytes(),
        }
    }

    fn decode(type_tag: &str, bytes: &[u8]) -> (r: Result<Self, Error>) {
        proof {
            reveal_strlit("sprite");
            reveal_strlit("label");
            assert("sprite"@.len() == 6);
            assert("label"@.len() == 5);
        }
        let sprite_tag = SpriteRecord::type_tag();
        let label_tag = LabelRecord::type_tag();
        if str_eq(type_tag, sprite_tag.as_str()) {
            match SpriteRecord::from_bytes(bytes) {
                Ok(t) => {
                    let v = SampleAsset::Sprite(t);
                    proof {
                        assert forall|u: SampleAsset|
                            (#[trigger] u.model()).serializable && u.model().type_tag == type_tag@
                                && u.model().serial == bytes@ implies v.model() == u.model() by {
                            match u {
                                SampleAsset::Sprite(a) => {
                                    assert(a.spec_serializable() && bytes@ == a.spec_serial());
                                },
                                SampleAsset::Label(_) => {
                                    assert(false);
                                },
                            }
                        }
                    }
                    Ok(v)
                },
                Err(e) => {
                    proof {
                        assert forall|u: SampleAsset|
                            (#[trigger] u.model()).serializable && u.model().type_tag == type_tag@
                                && u.model().serial == bytes@ implies false by {
                            match u {
                                SampleAsset::Sprite(a) => {
                                    assert(a.spec_serializable() && bytes@ == a.spec_serial());
                                },
                                SampleAsset::Label(_) => {},
                            }
                        }
                    }
                    Err(e)
                },
            }
        } else if str_eq(type_tag, label_tag.as_str()) {
            match LabelRecord::from_bytes(bytes) {
                Ok(t) => {
                    let v = SampleAsset::Label(t);
                    proof {
                        assert forall|u: SampleAsset|
                            (#[trigger] u.model()).serializable && u.model().type_tag == type_tag@
                                && u.model().serial == bytes@ implies v.model() == u.model() by {
                            match u {
                                SampleAsset::Sprite(_) => {
                                    assert(false);
                                },
                                SampleAsset::Label(a) => {
                                    assert(a.spec_serializable() && bytes@ == a.spec_serial());
                                },
                            }
                        }
                    }
                    Ok(v)
                },
                Err(e) => {
                    proof {
                        assert forall|u: SampleAsset|
                            (#[trigger] u.model()).serializable && u.model().type_tag == type_tag@
                                && u.model().serial == bytes@ implies false by {
                            match u {
                                SampleAsset::Sprite(_) => {},
                                SampleAsset::Label(a) => {
                                    assert(a.spec_serializable() && bytes@ == a.spec_serial());
                                },
                            }
                        }
                    }
                    Err(e)
                },
            }
        } else {
            proof {
                assert forall|u: SampleAsset|
                    (#[trigger] u.model()).serializable && u.model().type_tag == type_tag@
                        && u.model().serial == bytes@ implies false by {
                    match u {
                        SampleAsset::Sprite(_) => {},
                        SampleAsset::Label(_) => {},
                    }
                }
            }
            Err(Error::Deserialization("no dispatcher for the asset type tag".to_owned()))
        }
    }
}

impl Downcast<SpriteRecord> for SampleAsset {
    fn downcast_ref(&self) -> (r: Option<&SpriteRecord>) {
        match self {
            SampleAsset::Sprite(t) => Some(t),
            SampleAsset::Label(_) => None,
        }
    }
}

impl Downcast<LabelRecord> for SampleAsset {
    fn downcast_ref(&self) -> (r: Option<&LabelRecord>) {
        match self {
            SampleAsset::Sprite(_) => None,
            SampleAsset::Label(t) => Some(t),
        }
    }
}

/// The dispatch table `register` installs: the bundled record tags, in
/// registration order.
pub open spec fn sample_table() -> Seq<Seq<char>> {
    seq!["sprite"@, "label"@]
}

/// Builds a registry that knows the bundled record types and loads the
/// given binary container into it: the registration step an application
/// performs once at startup.
pub fn register(binary: Vec<u8>) -> (r: Result<Registry<SampleAsset>, Error>)
    ensures
        r matches Ok(reg) ==> reg.spec_table() == sample_table(),
        r matches Ok(reg) ==> forall|i: int|
            0 <= i < reg.spec_assets().len() ==> sample_table().contains(
                (#[trigger] reg.spec_assets()[i]).model().type_tag,
            ),
        forall|es: Seq<(Seq<char>, Seq<u8>)>|
            binary@ == #[trigger] container_encoding(es) && all_tags_registered(sample_table(), es)
                && all_entries_decodable::<SampleAsset>(es) ==> (r matches Ok(reg)
                && reg.spec_assets().len() == es.len() && (forall|i: int, u: SampleAsset|
                0 <= i < es.len() && #[trigger] entry_decodes_to(es[i], u) ==> (
                #[trigger] reg.spec_assets()[i]).model() == u.model())),
        forall|es: Seq<(Seq<char>, Seq<u8>)>, i: int|
            #![trigger container_encoding(es), es[i]]
            binary@ == container_encoding(es) && 0 <= i < es.len() && !sample_table().contains(
                es[i].0,
            ) && (forall|j: int|
                0 <= j < i ==> sample_table().contains((#[trigger] es[j]).0)
                    && entry_decodable::<SampleAsset>(es[j])) ==> (r matches Err(e)
                && e matches Error::TypeNotFound(s) && s@ == es[i].0),
{
    let b = Registry::<SampleAsset>::builder().reg_type::<SpriteRecord>().reg_type::<
        LabelRecord,
    >();
    proof {
        assert(b.spec_table() =~= sample_table());
    }
    b.load(binary.as_slice())
}

} // verus!
