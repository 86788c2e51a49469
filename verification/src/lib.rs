//! AURA: audio plugin framework core, verified with Verus.
//!
//! The library holds the host-independent logic of the framework: bus
//! layouts, note and voice bookkeeping, the shared state blob, editor
//! size handling and the small protocol helpers the format wrappers use.
//! Floating-point sample values never enter this crate: where a value is
//! a float in an audio API, the library carries its IEEE-754 bit pattern.

pub mod text;
pub mod bus;
pub mod chunked_process;
pub mod note_events;
pub mod params;
pub mod note_voices;
pub mod voice;
pub mod state;
pub mod preset;
pub mod process;
pub mod tuning;
pub mod clap_support;
pub mod host_events;
pub mod scale;
pub mod key_input;
pub mod config;
pub mod info;
pub mod hot;
pub mod vault;
pub mod derive_support;
pub mod derive_checks;
pub mod param_attrs;
pub mod param_range;
pub mod analysis;
pub mod build_assets;
