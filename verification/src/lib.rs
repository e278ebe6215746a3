//! A minimal proof-of-work ledger.
//!
//! A [`Blockchain`] is a sequence of [`Block`]s. Every block records the hash
//! of its predecessor, and its own hash is the SHA-256 digest of its content,
//! found by searching for a nonce that gives the digest a required number of
//! leading zero characters. The contracts of this crate state what the digest
//! of a block is, what a completed search has found, and what a chain that
//! passes validation looks like.

pub mod block;
pub mod blockchain;
mod clock;
pub mod decimal;
pub mod digest;

pub use block::Block;
pub use blockchain::Blockchain;
