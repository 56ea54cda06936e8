//! `ligate register-schema`: the schema definition file and its checks.

use vstd::prelude::*;
use crate::attest::{ChainArgs, SignerArgs};
use crate::encoding::{
    hex_decode, hex_decoded, hex_lower, is_hex_digit, lemma_hex_lower_digits, lemma_hex_roundtrip,
};
use crate::text::{strip_0x, strip_0x_spec};

verus! {

/// `ligate register-schema` arguments.
#[derive(Debug)]
pub struct RegisterSchemaCmd {
    /// Path to the schema definition JSON.
    pub file: String,
    pub signer: SignerArgs,
    pub chain: ChainArgs,
}

/// The `--file` schema definition.
#[derive(Debug)]
pub struct SchemaDoc {
    /// Schema name, e.g. `themisra.proof-of-prompt`.
    pub name: String,
    /// Schema version.
    pub version: u32,
    /// Bech32m `las1...` id of an already-registered attestor set.
    pub attestor_set_id: String,
    /// Builder-fee routing in basis points (0 when absent).
    pub fee_routing_bps: u16,
    /// `lig1...` address builder fees route to.
    pub fee_routing_addr: Option<String>,
    /// 32-byte hex content address of the off-chain payload spec.
    pub payload_shape_hash: Option<String>,
}

/// Why a schema definition was rejected.
#[derive(Debug)]
pub enum SchemaDocError {
    /// `fee_routing_addr` is set while `fee_routing_bps` is 0, or missing
    /// while it is not.
    FeeRouting,
    /// `payload_shape_hash` is not hex.
    PayloadShapeHex,
    /// `payload_shape_hash` is not 32 bytes.
    PayloadShapeLength { got: usize },
}

/// Fee-routing invariant: an address is given iff a non-zero share is routed.
pub fn check_fee_routing(doc: &SchemaDoc) -> (r: Result<(), SchemaDocError>)
    ensures
        r is Ok <==> ((doc.fee_routing_bps > 0) == (doc.fee_routing_addr is Some)),
        r is Err ==> (r matches Err(SchemaDocError::FeeRouting)),
{
    if (doc.fee_routing_bps > 0) != doc.fee_routing_addr.is_some() {
        Err(SchemaDocError::FeeRouting)
    } else {
        Ok(())
    }
}

/// What a `payload_shape_hash` string denotes: 32 bytes of hex, with or
/// without `0x`.
pub open spec fn payload_shape_hash_spec(s: Seq<char>) -> Option<Seq<u8>> {
    match hex_decoded(strip_0x_spec(s)) {
        Some(d) => if d.len() == 32 {
            Some(d)
        } else {
            None
        },
        None => None,
    }
}

/// Parse a 32-byte hex content hash (with or without a `0x` prefix).
pub fn parse_payload_shape_hash(s: &str) -> (r: Result<[u8; 32], SchemaDocError>)
    ensures
        match r {
            Ok(a) => payload_shape_hash_spec(s@) == Some(a@),
            Err(e) => payload_shape_hash_spec(s@) is None && match e {
                SchemaDocError::PayloadShapeHex => hex_decoded(strip_0x_spec(s@)) is None,
                SchemaDocError::PayloadShapeLength { got } => hex_decoded(strip_0x_spec(s@))
                    matches Some(d) && d.len() == got,
                SchemaDocError::FeeRouting => false,
            },
        },
{
    let cleaned = strip_0x(s);
    let bytes = match hex_decode(cleaned) {
        Some(b) => b,
        None => return Err(SchemaDocError::PayloadShapeHex),
    };
    let n = bytes.len();
    if n != 32 {
        return Err(SchemaDocError::PayloadShapeLength { got: n });
    }
    let mut a = [0u8; 32];
    let mut i: usize = 0;
    while i < 32
        invariant
            bytes@.len() == 32,
            i <= 32,
            forall|j: int| 0 <= j < i ==> a@[j] == bytes@[j],
        decreases 32 - i,
    {
        a[i] = bytes[i];
        i = i + 1;
    }
    assert(a@ =~= bytes@);
    Ok(a)
}

/// The payload shape hash a definition registers: the parsed field, or all
/// zeros (the documented opt-out) when it is absent.
pub fn schema_payload_shape_hash(doc: &SchemaDoc) -> (r: Result<[u8; 32], SchemaDocError>)
    ensures
        match &doc.payload_shape_hash {
            None => (r matches Ok(a) && a@ == Seq::new(32, |i: int| 0u8)),
            Some(s) => match r {
                Ok(a) => payload_shape_hash_spec(s@) == Some(a@),
                Err(_) => payload_shape_hash_spec(s@) is None,
            },
        },
{
    match &doc.payload_shape_hash {
        Some(s) => parse_payload_shape_hash(s.as_str()),
        None => {
            let a = [0u8; 32];
            assert(a@ =~= Seq::new(32, |i: int| 0u8));
            Ok(a)
        },
    }
}

/// A 32-byte payload shape hash written as hex, bare or after `0x`,
/// parses back to itself.
pub proof fn law_payload_shape_hash_roundtrip(h: Seq<u8>)
    requires
        h.len() == 32,
    ensures
        payload_shape_hash_spec(hex_lower(h)) == Some(h),
        payload_shape_hash_spec(seq!['0', 'x'] + hex_lower(h)) == Some(h),
{
    let t = hex_lower(h);
    lemma_hex_lower_digits(h);
    lemma_hex_roundtrip(h);
    assert(is_hex_digit(t[1]));
    assert(strip_0x_spec(t) == t);
    assert(hex_decoded(strip_0x_spec(t)) == Some(h));
    let p = seq!['0', 'x'] + t;
    assert(p.subrange(2, p.len() as int) =~= t);
    assert(strip_0x_spec(p) == t);
    assert(hex_decoded(strip_0x_spec(p)) == Some(h));
}

} // verus!
