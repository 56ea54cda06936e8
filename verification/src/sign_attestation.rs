//! `ligate sign-attestation`: one attestor's signature over the canonical
//! attestation digest. This module holds the argument rules; the digest and
//! the signature come from the chain's client library in the binary.

use vstd::prelude::*;
use crate::attest::SignerArgs;
use crate::encoding::{sha256, sha256_of};

verus! {

/// `ligate sign-attestation` arguments.
#[derive(Debug)]
pub struct SignAttestationCmd {
    /// Bech32m `lsc1...` schema id.
    pub schema: String,
    /// Bech32m `lph1...` payload hash.
    pub payload_hash: Option<String>,
    /// Path to the canonical payload bytes.
    pub payload_file: Option<String>,
    /// Bech32m `lig1...` address that will submit the on-chain tx.
    pub submitter: String,
    /// Unix seconds the digest is computed against (0 by default).
    pub timestamp: u64,
    /// Write the signatures array to this file instead of stdout.
    pub output: Option<String>,
    pub signer: SignerArgs,
}

/// Where the payload hash comes from.
#[derive(Debug)]
pub enum PayloadHashSource {
    /// A bech32m `lph1...` string.
    Given(String),
    /// The SHA-256 of this file's bytes.
    File(String),
}

/// Why the payload hash flags were rejected.
#[derive(Debug)]
pub enum PayloadHashError {
    BothGiven,
    NoneGiven,
}

/// Exactly one of `--payload-hash` / `--payload-file` must be given.
pub fn select_payload_hash_source(payload_hash: &Option<String>, payload_file: &Option<String>) -> (r:
    Result<PayloadHashSource, PayloadHashError>)
    ensures
        match (payload_hash, payload_file) {
            (Some(_), Some(_)) => (r matches Err(PayloadHashError::BothGiven)),
            (None, None) => (r matches Err(PayloadHashError::NoneGiven)),
            (Some(h), None) => (r matches Ok(PayloadHashSource::Given(g)) && g@ == h@),
            (None, Some(f)) => (r matches Ok(PayloadHashSource::File(g)) && g@ == f@),
        },
{
    match (payload_hash, payload_file) {
        (Some(_), Some(_)) => Err(PayloadHashError::BothGiven),
        (None, None) => Err(PayloadHashError::NoneGiven),
        (Some(h), None) => Ok(PayloadHashSource::Given(h.clone())),
        (None, Some(f)) => Ok(PayloadHashSource::File(f.clone())),
    }
}

/// The payload hash of a canonical payload file: SHA-256 of its bytes.
pub fn payload_hash_of_file(bytes: &[u8]) -> (r: [u8; 32])
    ensures
        r@ == sha256_of(bytes@),
{
    sha256(bytes)
}

/// How the signature is reported.
#[derive(Debug)]
pub enum SignOutput {
    /// Human-readable lines on stdout.
    Text,
    /// The JSON document on stdout.
    JsonStdout,
    /// The JSON document written to the `--output` file; `announce` says
    /// whether to note the write on stderr.
    JsonFile { announce: bool },
}

/// JSON when `--json` or `--output` is given (to the file if there is
/// one, with a note on stderr unless `--json`), text otherwise.
pub fn sign_output(json: bool, output_given: bool) -> (r: SignOutput)
    ensures
        output_given ==> (r matches SignOutput::JsonFile { announce } && announce == !json),
        !output_given && json ==> r is JsonStdout,
        !output_given && !json ==> r is Text,
{
    if output_given {
        SignOutput::JsonFile { announce: !json }
    } else if json {
        SignOutput::JsonStdout
    } else {
        SignOutput::Text
    }
}

} // verus!
