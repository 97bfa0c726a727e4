//! Binary asset packaging and runtime lookup.
//!
//! Heterogeneous, strongly typed data records ("assets") are serialized into
//! a single binary container at build time and later reconstructed into a
//! typed, queryable in-memory registry.


mod asset;
mod bundle;
mod codec;
mod compiler;
mod error;
mod metadata;
mod registry;
mod sample;
mod strutil;
mod type_id;
mod wire;

pub use asset::Asset;
pub use asset::AssetModel;
pub use asset::Downcast;
pub use asset::ErasedAsset;
pub use asset::model_of;
pub use bundle::Bundle;
pub use codec::container_encoding;
pub use codec::entries_view;
pub use compiler::Compiler;
pub use compiler::all_serializable;
pub use compiler::lemma_compile_idempotent;
pub use compiler::spec_entries;
pub use error::Error;
pub use metadata::Metadata;
pub use registry::Registry;
pub use registry::RegistryBuilder;
pub use registry::all_entries_decodable;
pub use registry::all_tags_registered;
pub use registry::entry_decodable;
pub use registry::entry_decodes_to;
pub use registry::lemma_compiled_container_loads;
pub use registry::lemma_container_round_trip;
pub use registry::query_matches;
pub use sample::LabelRecord;
pub use sample::SampleAsset;
pub use sample::SpriteRecord;
pub use sample::register;
pub use sample::sample_table;
pub use sample::spec_label_serial;
pub use sample::spec_sprite_serial;
pub use type_id::Type;
pub use wire::spec_string_block;

