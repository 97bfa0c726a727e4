//! Tests of the compile/register pipeline: container round trips, the
//! all-or-nothing load policy, and typed lookup.

use rasset::Compiler;
use rasset::ErasedAsset;
use rasset::Error;
use rasset::LabelRecord;
use rasset::Registry;
use rasset::RegistryBuilder;
use rasset::SampleAsset;
use rasset::SpriteRecord;
use rasset::register;

fn sprite(name: &str, w: u64, h: u64) -> SampleAsset {
    SampleAsset::Sprite(SpriteRecord {
        name: name.to_string(),
        size: (w, h),
    })
}

fn label(name: &str, value: u64) -> SampleAsset {
    SampleAsset::Label(LabelRecord {
        name: name.to_string(),
        value,
    })
}

#[test]
fn container_round_trip() {
    let mut c = Compiler::new();
    c.add_asset(sprite("Player", 64, 64));
    c.add_asset(label("Score", 17));
    c.add_asset(sprite("Enemy", 32, 32));
    let binary = c.compile().expect("compile should succeed");

    let reg = register(binary).expect("load should succeed");
    assert_eq!(reg.amount(), 3);

    let all = reg.get_all_assets();
    assert_eq!(all.len(), 3);
    assert_eq!(all[0].type_tag(), "sprite");
    assert_eq!(all[0].name(), "Player");
    assert_eq!(all[1].type_tag(), "label");
    assert_eq!(all[1].name(), "Score");
    assert_eq!(all[2].type_tag(), "sprite");
    assert_eq!(all[2].name(), "Enemy");
    match &all[1] {
        SampleAsset::Label(l) => assert_eq!(l.value, 17),
        SampleAsset::Sprite(_) => panic!("second asset should be a label"),
    }
}

#[test]
fn idempotent_compile() {
    let mut c = Compiler::new();
    c.add_asset(sprite("Player", 64, 64));
    c.add_asset(label("Score", 17));
    let first = c.compile().expect("compile should succeed");
    let second = c.compile().expect("compile should succeed");
    assert_eq!(first, second);
}

#[test]
fn missing_dispatcher_fails_closed() {
    let mut c = Compiler::new();
    c.add_asset(sprite("Player", 64, 64));
    let binary = c.compile().expect("compile should succeed");

    let r = RegistryBuilder::<SampleAsset>::new().load(&binary);
    match r {
        Err(Error::TypeNotFound(tag)) => assert_eq!(tag, "sprite"),
        other => panic!("expected a TypeNotFound error, got {:?}", other.is_ok()),
    }
}

#[test]
fn missing_dispatcher_names_the_unregistered_tag() {
    let mut c = Compiler::new();
    c.add_asset(label("Score", 1));
    c.add_asset(sprite("Player", 2, 2));
    let binary = c.compile().expect("compile should succeed");

    // Only the label type is registered; the sprite entry must abort the load.
    let r = Registry::<SampleAsset>::builder()
        .reg_type::<LabelRecord>()
        .load(&binary);
    match r {
        Err(Error::TypeNotFound(tag)) => assert_eq!(tag, "sprite"),
        _ => panic!("expected a TypeNotFound error"),
    }
}

#[test]
fn identity_gated_lookup() {
    let mut c = Compiler::new();
    c.add_asset(sprite("Hero", 10, 20));
    c.add_asset(label("Hero", 99));
    let binary = c.compile().expect("compile should succeed");
    let reg = register(binary).expect("load should succeed");

    let s: &SpriteRecord = reg.get_asset("Hero").expect("sprite lookup should succeed");
    assert_eq!(s.size, (10, 20));
    let l: &LabelRecord = reg.get_asset("Hero").expect("label lookup should succeed");
    assert_eq!(l.value, 99);
}

#[test]
fn first_match_wins() {
    let mut c = Compiler::new();
    c.add_asset(sprite("Dup", 1, 1));
    c.add_asset(sprite("Dup", 2, 2));
    let binary = c.compile().expect("compile should succeed");
    let reg = register(binary).expect("load should succeed");

    let s: &SpriteRecord = reg.get_asset("Dup").expect("lookup should succeed");
    assert_eq!(s.size, (1, 1));
}

#[test]
fn player_enemy_scenario() {
    let mut c = Compiler::new();
    c.add_asset(sprite("Player", 64, 64));
    c.add_asset(sprite("Enemy", 32, 32));
    let binary = c.compile().expect("compile should succeed");
    let reg = Registry::<SampleAsset>::builder()
        .reg_type::<SpriteRecord>()
        .load(&binary)
        .expect("load should succeed");

    assert_eq!(reg.amount(), 2);
    let player: &SpriteRecord = reg.get_asset("Player").expect("lookup should succeed");
    assert_eq!(player.size, (64, 64));
    let missing: Option<&SpriteRecord> = reg.get_asset("Missing");
    assert!(missing.is_none());
}

#[test]
fn empty_container_round_trip() {
    let c = Compiler::<SampleAsset>::new();
    let binary = c.compile().expect("compile should succeed");
    let reg = register(binary).expect("load should succeed");
    assert_eq!(reg.amount(), 0);
    assert!(reg.get_all_assets().is_empty());
    let sprites: Vec<&SpriteRecord> = reg.get_assets();
    assert!(sprites.is_empty());
}

#[test]
fn get_assets_filters_by_type_and_preserves_order() {
    let mut c = Compiler::new();
    c.add_asset(sprite("A", 1, 1));
    c.add_asset(label("B", 2));
    c.add_asset(sprite("C", 3, 3));
    let binary = c.compile().expect("compile should succeed");
    let reg = register(binary).expect("load should succeed");

    let sprites: Vec<&SpriteRecord> = reg.get_assets();
    assert_eq!(sprites.len(), 2);
    assert_eq!(sprites[0].name, "A");
    assert_eq!(sprites[1].name, "C");
    let labels: Vec<&LabelRecord> = reg.get_assets();
    assert_eq!(labels.len(), 1);
    assert_eq!(labels[0].name, "B");
    assert_eq!(labels[0].value, 2);
}

#[test]
fn load_rejects_malformed_framing() {
    let r = RegistryBuilder::<SampleAsset>::new().load(&[1u8]);
    assert!(matches!(r, Err(Error::Deserialization(_))));
}

#[test]
fn load_rejects_bad_payload_for_registered_type() {
    // A container whose single entry carries the sprite tag but a payload
    // the sprite deserializer must reject.
    let entries: Vec<(String, Vec<u8>)> = vec![("sprite".to_string(), vec![0xFFu8])];
    let binary = bincode::encode_to_vec(&entries, bincode::config::standard()).unwrap();
    let r = Registry::<SampleAsset>::builder()
        .reg_type::<SpriteRecord>()
        .load(&binary)
        .err()
        .expect("load should fail");
    assert!(matches!(r, Error::Deserialization(_)));
}

#[test]
fn load_rejects_unknown_tag_in_container() {
    let entries: Vec<(String, Vec<u8>)> = vec![("mesh".to_string(), vec![])];
    let binary = bincode::encode_to_vec(&entries, bincode::config::standard()).unwrap();
    let r = register(binary);
    match r {
        Err(Error::TypeNotFound(tag)) => assert_eq!(tag, "mesh"),
        _ => panic!("expected a TypeNotFound error"),
    }
}

#[test]
fn builder_reg_type_is_chainable_and_rebindable() {
    let mut c = Compiler::new();
    c.add_asset(sprite("Player", 64, 64));
    let binary = c.compile().expect("compile should succeed");

    // Registering a type twice keeps its dispatcher available.
    let reg = Registry::<SampleAsset>::builder()
        .reg_type::<SpriteRecord>()
        .reg_type::<SpriteRecord>()
        .load(&binary)
        .expect("load should succeed");
    assert_eq!(reg.amount(), 1);
}
