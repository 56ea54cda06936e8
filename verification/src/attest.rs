//! Shared pieces of the chain-submitting subcommands: the signer and chain
//! flags, how a signing key is selected and decoded, the submission
//! parameters, and the decisions of the inclusion poll.

use vstd::prelude::*;
use crate::config::{id_result_view, parse_chain_hash, parse_chain_hash_spec, IdError, IdErrorView};
use crate::encoding::{hex_decode, hex_decoded};
use crate::text::{is_blank, is_blank_spec, is_unicode_whitespace, strip_0x, strip_0x_spec};

verus! {

/// Default per-tx fee envelope for attestation writes (nano-LGT): 0.2 $LGT.
pub const DEFAULT_MAX_FEE_NANO: u128 = 200_000_000;

/// Signing-key resolution flags, flattened into each write subcommand.
#[derive(Debug)]
pub struct SignerArgs {
    /// Local keystore role (created by `ligate keys generate`).
    pub signer: Option<String>,
    /// Override the keystore directory.
    pub keystore: Option<String>,
    /// 32-byte private key seed as hex (with or without `0x`).
    pub private_key_hex: Option<String>,
}

/// Chain-identity flags, flattened into each write subcommand.
#[derive(Debug)]
pub struct ChainArgs {
    /// Numeric chain id.
    pub chain_id: u64,
    /// Chain hash: bech32m `lsch1...`, `0x`-prefixed hex, or bare hex.
    pub chain_hash: String,
    /// Override the per-tx max fee (nano-LGT).
    pub max_fee: Option<u128>,
    /// Override the account nonce instead of fetching it from chain.
    pub nonce: Option<u64>,
}

/// Where the signing key comes from.
#[derive(Debug)]
pub enum SignerSource {
    /// Read `<role>.key` from the keystore.
    Keystore { role: String },
    /// The seed given inline, with any `0x` removed.
    InlineHex { key_hex: String },
}

/// Why a signing key could not be resolved.
#[derive(Debug)]
pub enum SignerError {
    /// Both `--signer` and `--private-key-hex` were given.
    BothGiven,
    /// Neither `--signer` nor `--private-key-hex` was given.
    NoneGiven,
    /// The key text is not hex.
    KeyHexDecode,
    /// The key is not a 32-byte seed.
    SeedLength { got: usize },
}

/// Chooses the key source from `--signer` / `--private-key-hex`: exactly
/// one must be given.
pub fn select_signer_source(signer: &Option<String>, private_key_hex: &Option<String>) -> (r:
    Result<SignerSource, SignerError>)
    ensures
        match (signer, private_key_hex) {
            (Some(_), Some(_)) => r matches Err(SignerError::BothGiven),
            (None, None) => r matches Err(SignerError::NoneGiven),
            (Some(role), None) => r matches Ok(SignerSource::Keystore { role: r2 }) && r2@ == role@,
            (None, Some(h)) => r matches Ok(SignerSource::InlineHex { key_hex }) && key_hex@
                == strip_0x_spec(h@),
        },
{
    match (signer, private_key_hex) {
        (Some(_), Some(_)) => Err(SignerError::BothGiven),
        (Some(role), None) => Ok(SignerSource::Keystore { role: role.clone() }),
        (None, Some(h)) => Ok(SignerSource::InlineHex { key_hex: strip_0x(h.as_str()).to_owned() }),
        (None, None) => Err(SignerError::NoneGiven),
    }
}

/// Hex-decodes a signer key.
pub fn decode_signer_key(key_hex: &str) -> (r: Result<Vec<u8>, SignerError>)
    ensures
        match r {
            Ok(v) => hex_decoded(key_hex@) == Some(v@),
            Err(e) => hex_decoded(key_hex@) is None && e is KeyHexDecode,
        },
{
    match hex_decode(key_hex) {
        Some(v) => Ok(v),
        None => Err(SignerError::KeyHexDecode),
    }
}

/// A decoded key as a 32-byte Ed25519 seed.
pub fn seed_from_key_bytes(bytes: &[u8]) -> (r: Result<[u8; 32], SignerError>)
    ensures
        match r {
            Ok(seed) => bytes@.len() == 32 && seed@ == bytes@,
            Err(e) => bytes@.len() != 32 && (e matches SignerError::SeedLength { got } && got
                == bytes@.len()),
        },
{
    let n = bytes.len();
    if n != 32 {
        return Err(SignerError::SeedLength { got: n });
    }
    let mut seed = [0u8; 32];
    let mut i: usize = 0;
    while i < 32
        invariant
            bytes@.len() == 32,
            i <= 32,
            forall|j: int| 0 <= j < i ==> seed@[j] == bytes@[j],
        decreases 32 - i,
    {
        seed[i] = bytes[i];
        i = i + 1;
    }
    assert(seed@ =~= bytes@);
    Ok(seed)
}

/// Parameters of one signed submission.
#[derive(Debug)]
pub struct Submission {
    pub chain_id: u64,
    pub chain_hash: [u8; 32],
    pub max_fee: u128,
    /// The nonce to sign with; `None` means fetch it from chain.
    pub nonce: Option<u64>,
}

/// Resolves the chain flags into submission parameters: the parsed chain
/// hash, the max fee (`default_max_fee` unless overridden) and the nonce
/// override.
pub fn prepare_submission(chain: &ChainArgs, default_max_fee: u128) -> (r: Result<
    Submission,
    IdError,
>)
    ensures
        match r {
            Ok(p) => parse_chain_hash_spec(chain.chain_hash@) == Ok::<Seq<u8>, IdErrorView>(
                p.chain_hash@,
            ) && p.chain_id == chain.chain_id && p.max_fee == match chain.max_fee {
                Some(f) => f,
                None => default_max_fee,
            } && p.nonce == chain.nonce,
            Err(e) => parse_chain_hash_spec(chain.chain_hash@) == Err::<Seq<u8>, IdErrorView>(e@),
        },
{
    let chain_hash = match parse_chain_hash(chain.chain_hash.as_str()) {
        Ok(h) => h,
        Err(e) => return Err(e),
    };
    let max_fee = match chain.max_fee {
        Some(f) => f,
        None => default_max_fee,
    };
    Ok(Submission { chain_id: chain.chain_id, chain_hash, max_fee, nonce: chain.nonce })
}

/// Pause between two inclusion polls, in milliseconds.
pub const POLL_INTERVAL_MS: u64 = 500;

/// How long the inclusion poll waits before giving up, in nanoseconds (30 s).
pub const MAX_WAIT_NANOS: u128 = 30_000_000_000;

/// Next step of the inclusion poll.
#[derive(Debug)]
pub enum PollAction {
    /// The wait is over: report a timeout (the tx may still land).
    GiveUp,
    /// Ask the node for the transaction.
    Fetch,
    /// The chain has indexed the transaction.
    Included,
    /// Not indexed yet: sleep `POLL_INTERVAL_MS`, then poll again.
    Sleep,
}

/// Before each poll: give up once more than 30 s have elapsed.
pub fn poll_before_fetch(elapsed_nanos: u128) -> (a: PollAction)
    ensures
        a is GiveUp <==> elapsed_nanos > MAX_WAIT_NANOS,
        a is GiveUp || a is Fetch,
{
    if elapsed_nanos > MAX_WAIT_NANOS {
        PollAction::GiveUp
    } else {
        PollAction::Fetch
    }
}

/// After each poll: a non-blank body means the transaction is indexed;
/// an empty body (the node's 404) or a failed request means keep polling.
pub fn poll_after_fetch(body: Option<&str>) -> (a: PollAction)
    ensures
        a is Included <==> (body is Some && !is_blank_spec(body->0@)),
        a is Included <==> (body is Some && exists|i: int|
            0 <= i < body->0@.len() && !is_unicode_whitespace(#[trigger] body->0@[i])),
        a is Included || a is Sleep,
{
    match body {
        Some(b) => if is_blank(b) {
            PollAction::Sleep
        } else {
            PollAction::Included
        },
        None => PollAction::Sleep,
    }
}

} // verus!
