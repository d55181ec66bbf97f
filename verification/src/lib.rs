//! Encrypted, file-backed persistence for a collection of journal entries.
//!
//! The crate holds the rules of the store: how a password becomes a key, how a
//! payload is sealed into a portable container and opened again, how a password
//! is scored, and how the entry collection is read, changed and searched. File
//! access and the JSON codec live with the caller, which hands the library what
//! it read and writes out what the library returns.

pub mod commands;
pub mod crypto;
pub mod encoding;
pub mod error;
pub mod models;
pub mod primitives;
pub mod search;
pub mod storage;
pub mod text;
