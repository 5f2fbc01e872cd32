//! The cryptographic and compression primitives the vault is built on. Each
//! one is an outside library behind a small contract.

pub mod aead;
pub mod archive;
pub mod compress;
pub mod hash;
pub mod ids;
pub mod kdf;
pub mod kem;
pub mod pattern;
pub mod qrcode;
pub mod random;
pub mod wipe;
