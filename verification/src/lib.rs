//! Anchors an append-only library of small data pages to a Bitcoin-like chain.
//!
//! A transaction destroys value to a fixed address and carries one 20-byte
//! commitment in an `OP_RETURN` output. The commitment roots a backward-linked
//! chain of branch blobs whose leaves are pages. This crate holds the codec
//! that builds such a chain and the validator that resolves an untrusted
//! commitment against a content-addressed blob store.

pub mod chain;
pub mod cli;
pub mod codec;
pub mod config;
pub mod encoding;
pub mod error;
pub mod hash;
pub mod publish;
pub mod resolver;
pub mod roundtrip;
pub mod scan;
pub mod script;
pub mod store;
pub mod structs;
pub mod tbpub;
pub mod text;
pub mod validation;
pub mod verror;
pub mod wallet;
