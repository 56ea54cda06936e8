//! Verified core of the `ligate` operator and builder CLI for Ligate Chain.
//!
//! The library holds the command arguments, the identifier codecs, the
//! keystore rules and the decisions that the CLI takes around each chain
//! call; the binary in `app/` performs the file, network and terminal work.

pub mod text;
pub mod encoding;
pub mod cli;
pub mod config;
pub mod keys;
pub mod attest;
pub mod nonce;
pub mod transfer;
pub mod balance;
pub mod faucet;
pub mod info;
pub mod query;
pub mod register_attestor_set;
pub mod register_schema;
pub mod sign_attestation;
pub mod submit_attestation;
