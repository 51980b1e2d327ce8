//! A single-node blockchain core: an append-only, hash-linked sequence of
//! blocks, each sealed by a proof-of-work search and checked against the
//! linkage and proof-of-work rules before it is accepted into the ledger.
//!
//! The chain state machine lives in [`chain`], the block data model and its
//! canonical serialization in [`block`], the decimal and JSON-escape
//! encoders in [`codec`], the hashing primitive in [`hasher`], and the
//! proof-of-work predicate in [`pow`].

pub mod block;
pub mod chain;
mod clock;
pub mod codec;
pub mod hasher;
pub mod pow;
