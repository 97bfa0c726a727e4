//! Tests of the concrete asset record types: serialization round trips,
//! rejection of malformed input, and the trait surface.

use rasset::Asset;
use rasset::Error;
use rasset::LabelRecord;
use rasset::SpriteRecord;

#[test]
fn sprite_round_trip() {
    let a = SpriteRecord {
        name: "Player".to_string(),
        size: (64, 64),
    };
    let bytes = a.to_bytes().expect("sprite should serialize");
    let b = SpriteRecord::from_bytes(&bytes).expect("sprite should deserialize");
    assert_eq!(b.name, "Player");
    assert_eq!(b.size, (64, 64));
}

#[test]
fn label_round_trip() {
    let a = LabelRecord {
        name: "HighScore".to_string(),
        value: 987654321,
    };
    let bytes = a.to_bytes().expect("label should serialize");
    let b = LabelRecord::from_bytes(&bytes).expect("label should deserialize");
    assert_eq!(b.name, "HighScore");
    assert_eq!(b.value, 987654321);
}

#[test]
fn sprite_round_trip_unicode_name() {
    let a = SpriteRecord {
        name: "Pl\u{00e4}yer \u{2603}".to_string(),
        size: (1, 2),
    };
    let bytes = a.to_bytes().expect("sprite should serialize");
    let b = SpriteRecord::from_bytes(&bytes).expect("sprite should deserialize");
    assert_eq!(b.name, "Pl\u{00e4}yer \u{2603}");
    assert_eq!(b.size, (1, 2));
}

#[test]
fn sprite_round_trip_empty_name() {
    let a = SpriteRecord {
        name: String::new(),
        size: (0, u64::MAX),
    };
    let bytes = a.to_bytes().expect("sprite should serialize");
    let b = SpriteRecord::from_bytes(&bytes).expect("sprite should deserialize");
    assert_eq!(b.name, "");
    assert_eq!(b.size, (0, u64::MAX));
}

#[test]
fn sprite_serialization_is_framed() {
    // Eight-byte little-endian length prefix, UTF-8 name, two u64 fields.
    let a = SpriteRecord {
        name: "ab".to_string(),
        size: (3, 4),
    };
    let bytes = a.to_bytes().unwrap();
    assert_eq!(bytes.len(), 8 + 2 + 16);
    assert_eq!(&bytes[0..8], &[2, 0, 0, 0, 0, 0, 0, 0]);
    assert_eq!(&bytes[8..10], b"ab");
    assert_eq!(&bytes[10..18], &[3, 0, 0, 0, 0, 0, 0, 0]);
    assert_eq!(&bytes[18..26], &[4, 0, 0, 0, 0, 0, 0, 0]);
}

#[test]
fn sprite_from_bytes_rejects_truncated() {
    let r = SpriteRecord::from_bytes(&[1, 2, 3]);
    assert!(matches!(r, Err(Error::Deserialization(_))));
}

#[test]
fn sprite_from_bytes_rejects_bad_length_prefix() {
    // Length prefix says five name bytes, but none are present.
    let mut bytes = vec![5u8, 0, 0, 0, 0, 0, 0, 0];
    bytes.extend_from_slice(&[0u8; 16]);
    let r = SpriteRecord::from_bytes(&bytes);
    assert!(matches!(r, Err(Error::Deserialization(_))));
}

#[test]
fn sprite_from_bytes_rejects_invalid_utf8() {
    // Correct framing, but the single name byte is not valid UTF-8.
    let mut bytes = vec![1u8, 0, 0, 0, 0, 0, 0, 0, 0xFF];
    bytes.extend_from_slice(&[0u8; 16]);
    let r = SpriteRecord::from_bytes(&bytes);
    assert!(matches!(r, Err(Error::Deserialization(_))));
}

#[test]
fn label_from_bytes_rejects_truncated() {
    let r = LabelRecord::from_bytes(&[0u8; 7]);
    assert!(matches!(r, Err(Error::Deserialization(_))));
}

#[test]
fn type_tags_and_identities_are_distinct() {
    assert_eq!(SpriteRecord::type_tag(), "sprite");
    assert_eq!(LabelRecord::type_tag(), "label");
    assert_ne!(SpriteRecord::type_identity(), LabelRecord::type_identity());
    let s = SpriteRecord {
        name: "x".to_string(),
        size: (0, 0),
    };
    let l = LabelRecord {
        name: "x".to_string(),
        value: 0,
    };
    assert_eq!(s.get_type(), SpriteRecord::type_identity());
    assert_eq!(l.get_type(), LabelRecord::type_identity());
    assert_ne!(s.get_type(), l.get_type());
    assert_eq!(s.name(), "x");
    assert_eq!(l.name(), "x");
}
