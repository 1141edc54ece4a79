//! Core of a minimal single-node ledger: tamper-evident blocks chained by
//! digests, Merkle commitments over block payloads, proof-of-work sealing,
//! whole-chain validation and fork choice, and the balance ledger that block
//! rewards drive.

pub mod chain;
pub mod clock;
pub mod config;
pub mod crypto;
pub mod text;
pub mod transaction;
pub mod utils;
pub mod wallet;
