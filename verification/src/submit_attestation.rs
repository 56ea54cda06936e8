//! `ligate submit-attestation`: the attestor signatures file and its checks.

use vstd::prelude::*;
use crate::attest::{ChainArgs, SignerArgs};
use crate::encoding::{
    hex_decode, hex_decoded, hex_lower, is_hex_digit, lemma_hex_lower_digits, lemma_hex_roundtrip,
};
use crate::text::{strip_0x, strip_0x_spec};

verus! {

/// Largest attestor signature accepted, in bytes (ed25519 fills 64; room is
/// left for other schemes).
pub const MAX_ATTESTOR_SIGNATURE_BYTES: usize = 96;

/// `ligate submit-attestation` arguments.
#[derive(Debug)]
pub struct SubmitAttestationCmd {
    /// Bech32m `lsc1...` schema id.
    pub schema: String,
    /// Bech32m `lph1...` payload hash.
    pub payload_hash: String,
    /// Path to the JSON file of attestor signatures.
    pub signatures: String,
    pub signer: SignerArgs,
    pub chain: ChainArgs,
}

/// One entry of the `--signatures` JSON array.
#[derive(Debug)]
pub struct SignatureEntry {
    /// Attestor's bech32m `lpk1...` public key.
    pub pubkey: String,
    /// Raw signature as hex (with or without `0x`).
    pub sig: String,
}

/// Why a signatures file was rejected.
#[derive(Debug)]
pub enum SignaturesError {
    /// The file holds no signatures.
    Empty,
    /// A signature is not hex.
    SigHex,
    /// A signature is longer than `MAX_ATTESTOR_SIGNATURE_BYTES`.
    SigTooLong,
}

/// The signatures file must hold at least one entry.
pub fn check_signatures_present(count: usize) -> (r: Result<(), SignaturesError>)
    ensures
        r is Ok <==> count > 0,
        r is Err ==> (r matches Err(SignaturesError::Empty)),
{
    if count == 0 {
        Err(SignaturesError::Empty)
    } else {
        Ok(())
    }
}

/// The bytes of an entry's signature: hex with any `0x` removed, at most
/// `MAX_ATTESTOR_SIGNATURE_BYTES` long.
pub fn decode_signature(sig: &str) -> (r: Result<Vec<u8>, SignaturesError>)
    ensures
        match hex_decoded(strip_0x_spec(sig@)) {
            None => (r matches Err(SignaturesError::SigHex)),
            Some(d) => if d.len() <= MAX_ATTESTOR_SIGNATURE_BYTES {
                (r matches Ok(v) && v@ == d)
            } else {
                (r matches Err(SignaturesError::SigTooLong))
            },
        },
{
    let cleaned = strip_0x(sig);
    match hex_decode(cleaned) {
        None => Err(SignaturesError::SigHex),
        Some(v) => if v.len() <= MAX_ATTESTOR_SIGNATURE_BYTES {
            Ok(v)
        } else {
            Err(SignaturesError::SigTooLong)
        },
    }
}

/// A signature written as lowercase hex (as `sign-attestation` emits it)
/// is read back by `submit-attestation` as the same bytes, with or without
/// a `0x` prefix, when it fits `MAX_ATTESTOR_SIGNATURE_BYTES`.
pub proof fn law_signature_hex_roundtrip(sig: Seq<u8>)
    requires
        sig.len() <= MAX_ATTESTOR_SIGNATURE_BYTES,
    ensures
        hex_decoded(strip_0x_spec(hex_lower(sig))) == Some(sig),
        hex_decoded(strip_0x_spec(seq!['0', 'x'] + hex_lower(sig))) == Some(sig),
{
    let h = hex_lower(sig);
    lemma_hex_lower_digits(sig);
    lemma_hex_roundtrip(sig);
    if h.len() >= 2 {
        assert(is_hex_digit(h[1]));
    }
    assert(strip_0x_spec(h) == h);
    let p = seq!['0', 'x'] + h;
    assert(p.subrange(2, p.len() as int) =~= h);
}

} // verus!
