//! Streaming decoder for encrypted messenger backup archives.

pub mod args;
pub mod backups;
pub mod bytes;
pub mod crypto;
pub mod decrypter;
pub mod error;
pub mod fields;
pub mod frame;
pub mod input;
pub mod keys;
pub mod laws;
pub mod wire;
