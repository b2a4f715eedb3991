//! Streaming encryption and decryption over byte sources.
//!
//! The crate wraps a sequential byte source and a block cipher engine and
//! exposes a second byte stream holding the encrypted (or decrypted) form of
//! the first, produced incrementally: each read pulls just enough input to
//! satisfy the caller, so the whole payload is never held in memory at once.

pub mod adapter;
pub mod engine;
pub mod error;
pub mod oneshot;
pub mod read;
pub mod source;
