//! Canonical block representation for a proof-of-work ledger.
//!
//! The crate fixes the byte layout that is hashed to give a block its
//! identity, the transaction container whose commitment the header embeds,
//! and the conversion of a leading-zero-bit count into a 256-bit
//! proof-of-work threshold.

pub mod block;
pub mod difficulty;
pub mod encoding;
pub mod hash;
pub mod merkle;
pub mod transaction;
