//! At-rest data protection: a master-key keychain, whole-payload and chunked
//! file envelopes, and the rules around them, with machine-checked contracts.

pub mod bookmarks;
pub mod cleaner;
pub mod clipboard_store;
pub mod codec;
pub mod commands;
pub mod compression;
pub mod container;
pub mod crypto;
pub mod crypto_stream;
pub mod entropy;
pub mod error;
pub mod keychain;
pub mod keys;
pub mod legacy;
pub mod notes;
pub mod packer;
pub mod paths;
pub mod primitives;
pub mod progress;
pub mod qr;
pub mod recovery;
pub mod secure_rng;
pub mod shred;
pub mod state;
pub mod stream_laws;
pub mod stream_steps;
pub mod text;
pub mod utils;
pub mod vault;
