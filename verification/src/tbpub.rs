//! The single-commitment variant: one tagged transaction per block carries
//! either a hash or a decentralised identifier.

pub mod cli;
pub mod config;
pub mod sending;
pub mod transaction;
