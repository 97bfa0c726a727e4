//! Tests of the supporting value types: type identities, errors, metadata
//! and bundles.

use rasset::Bundle;
use rasset::Error;
use rasset::Metadata;
use rasset::SampleAsset;
use rasset::SpriteRecord;
use rasset::Type;

#[test]
fn type_identity_equality_and_hashing() {
    let a = Type(1);
    let b = Type(1);
    let c = Type(2);
    assert_eq!(a, b);
    assert_ne!(a, c);
    let copied = a;
    assert_eq!(copied, b);
}

#[test]
fn error_variants_compare_by_content() {
    let e1 = Error::TypeNotFound("sprite".to_string());
    let e2 = Error::TypeNotFound("sprite".to_string());
    let e3 = Error::Deserialization("sprite".to_string());
    assert_eq!(e1, e2);
    assert_ne!(e1, e3);
    let cloned = e1.clone();
    assert_eq!(cloned, e2);
    assert!(matches!(
        Error::Serialization("x".to_string()),
        Error::Serialization(_)
    ));
    assert!(matches!(Error::Compilation("x".to_string()), Error::Compilation(_)));
    assert!(matches!(Error::Io("x".to_string()), Error::Io(_)));
}

#[test]
fn metadata_and_bundle_hold_their_fields() {
    let m = Metadata {
        name: "Player".to_string(),
        type_tag: "sprite".to_string(),
        hash: "0abc".to_string(),
    };
    assert_eq!(m.clone(), m);
    let bundle = Bundle {
        metadata: m,
        assets: vec![SampleAsset::Sprite(SpriteRecord {
            name: "Player".to_string(),
            size: (64, 64),
        })],
    };
    assert_eq!(bundle.metadata.name, "Player");
    assert_eq!(bundle.metadata.type_tag, "sprite");
    assert_eq!(bundle.metadata.hash, "0abc");
    assert_eq!(bundle.assets.len(), 1);
}
