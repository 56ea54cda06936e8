//! Chain identity: parsing and encoding the 32-byte identifiers that
//! ligate-chain emits (the chain hash `lsch1...` and token ids `token_1...`).
//!
//! Each parser accepts three forms: bech32m with the type's HRP, hex with a
//! leading `0x` / `0X`, and bare 64-character hex. Wrong-HRP bech32m and
//! length mismatches are rejected.

use vstd::prelude::*;
use vstd::utf8::{encode_utf8, is_ascii_chars, is_ascii_chars_encode_utf8};
use crate::encoding::{
    all_hex_digits, bech32_decode, bech32_decoding, bech32m_encode, bech32m_encoding, hex_decode,
    hex_decoded, hex_lower, is_hex_digit, lemma_hex_lower_digits, lemma_hex_roundtrip,
    lowercase_hrp,
};
use crate::text::{concat, has_0x_prefix, has_prefix, starts_with};

verus! {

/// HRP for the build-time chain-hash fingerprint.
pub const CHAIN_HASH_HRP: &'static str = "lsch";

/// HRP for token identifiers; the bech32m separator makes them read `token_1...`.
pub const TOKEN_ID_HRP: &'static str = "token_";

/// Chain-identity inputs every state-changing command needs.
#[derive(Debug)]
pub struct ChainIdentity {
    /// Numeric chain id.
    pub chain_id: u64,
    /// 32-byte chain hash that binds transaction signatures.
    pub chain_hash: [u8; 32],
    /// Bytes of the `$LGT` token id.
    pub lgt_token_id: [u8; 32],
}

/// Why a 32-byte identifier was rejected.
#[derive(Debug)]
pub enum IdError {
    /// The input looked like bech32m (`<hrp>1...`) but did not decode.
    Bech32Decode,
    /// The bech32m string decoded under another human-readable part.
    WrongHrp { expected: String, found: String },
    /// `0x`-prefixed input whose hex part is not 64 bytes long.
    PrefixedHexLength { got: usize },
    /// Unprefixed input that is not 64 bytes long.
    BareLength { got: usize },
    /// The hex digits did not decode.
    HexDecode,
    /// The decoded payload is not 32 bytes.
    PayloadLength { got: usize },
}

/// Mathematical view of [`IdError`].
pub enum IdErrorView {
    Bech32Decode,
    WrongHrp { expected: Seq<char>, found: Seq<char> },
    PrefixedHexLength { got: nat },
    BareLength { got: nat },
    HexDecode,
    PayloadLength { got: nat },
}

impl View for IdError {
    type V = IdErrorView;

    open spec fn view(&self) -> IdErrorView {
        match self {
            IdError::Bech32Decode => IdErrorView::Bech32Decode,
            IdError::WrongHrp { expected, found } => IdErrorView::WrongHrp {
                expected: expected@,
                found: found@,
            },
            IdError::PrefixedHexLength { got } => IdErrorView::PrefixedHexLength { got: *got as nat },
            IdError::BareLength { got } => IdErrorView::BareLength { got: *got as nat },
            IdError::HexDecode => IdErrorView::HexDecode,
            IdError::PayloadLength { got } => IdErrorView::PayloadLength { got: *got as nat },
        }
    }
}

/// Number of bytes in the UTF-8 encoding of `s` (what `str::len` reports).
pub open spec fn utf8_len(s: Seq<char>) -> nat {
    encode_utf8(s).len()
}

/// A decoded payload is accepted iff it is exactly 32 bytes.
pub open spec fn payload_32(d: Seq<u8>) -> Result<Seq<u8>, IdErrorView> {
    if d.len() == 32 {
        Ok(d)
    } else {
        Err(IdErrorView::PayloadLength { got: d.len() })
    }
}

/// Hex input (after any `0x`): 64 bytes long, decoded, 32 bytes out.
pub open spec fn hex_payload(h: Seq<char>, len_error: IdErrorView) -> Result<Seq<u8>, IdErrorView> {
    if utf8_len(h) != 64 {
        Err(len_error)
    } else {
        match hex_decoded(h) {
            None => Err(IdErrorView::HexDecode),
            Some(d) => payload_32(d),
        }
    }
}

/// The outcome of parsing `s` as a 32-byte identifier whose bech32m form
/// uses the human-readable part `hrp`.
pub open spec fn parse_id_spec(s: Seq<char>, hrp: Seq<char>) -> Result<Seq<u8>, IdErrorView> {
    if has_prefix(s, hrp.push('1')) {
        match bech32_decoding(s) {
            None => Err(IdErrorView::Bech32Decode),
            Some((h, d)) => if h != hrp {
                Err(IdErrorView::WrongHrp { expected: hrp, found: h })
            } else {
                payload_32(d)
            },
        }
    } else if has_0x_prefix(s) {
        let h = s.subrange(2, s.len() as int);
        hex_payload(h, IdErrorView::PrefixedHexLength { got: utf8_len(h) })
    } else {
        hex_payload(s, IdErrorView::BareLength { got: utf8_len(s) })
    }
}

/// View of a parse result.
pub open spec fn id_result_view(r: Result<[u8; 32], IdError>) -> Result<Seq<u8>, IdErrorView> {
    match r {
        Ok(a) => Ok(a@),
        Err(e) => Err(e@),
    }
}

/// Byte length of `s` (what `str::len` returns).
pub fn byte_len(s: &str) -> (n: usize)
    ensures
        n as nat == utf8_len(s@),
{
    s.as_bytes().len()
}

/// Copies a 32-byte vector into an array.
fn to_array32(v: &Vec<u8>) -> (a: [u8; 32])
    requires
        v@.len() == 32,
    ensures
        a@ == v@,
{
    let mut a = [0u8; 32];
    let mut i: usize = 0;
    while i < 32
        invariant
            v@.len() == 32,
            i <= 32,
            forall|j: int| 0 <= j < i ==> a@[j] == v@[j],
        decreases 32 - i,
    {
        a[i] = v[i];
        i = i + 1;
    }
    assert(a@ =~= v@);
    a
}

/// Accepts a decoded payload iff it is exactly 32 bytes.
fn into_payload_32(d: Vec<u8>) -> (r: Result<[u8; 32], IdError>)
    ensures
        id_result_view(r) == payload_32(d@),
{
    if d.len() == 32 {
        Ok(to_array32(&d))
    } else {
        Err(IdError::PayloadLength { got: d.len() })
    }
}

/// Shared parser for any 32-byte identifier that ligate-chain emits.
///
/// A string starting with `<hrp>1` takes the bech32m path and must decode
/// under exactly that HRP; otherwise it must be hex, with or without `0x`.
fn parse_32_byte_id(s: &str, expected_hrp: &str) -> (r: Result<[u8; 32], IdError>)
    ensures
        id_result_view(r) == parse_id_spec(s@, expected_hrp@),
{
    let one = "1";
    proof {
        reveal_strlit("1");
    }
    let prefix = concat(expected_hrp, one);
    assert(prefix@ =~= expected_hrp@.push('1'));
    if starts_with(s, prefix.as_str()) {
        match bech32_decode(s) {
            None => Err(IdError::Bech32Decode),
            Some((hrp, data)) => {
                let expected = expected_hrp.to_owned();
                if hrp == expected {
                    into_payload_32(data)
                } else {
                    Err(IdError::WrongHrp { expected, found: hrp })
                }
            },
        }
    } else {
        let n = s.unicode_len();
        let prefixed = n >= 2 && s.get_char(0) == '0' && (s.get_char(1) == 'x' || s.get_char(1)
            == 'X');
        if prefixed {
            let stripped = s.substring_char(2, n);
            let len = byte_len(stripped);
            if len != 64 {
                return Err(IdError::PrefixedHexLength { got: len });
            }
            match hex_decode(stripped) {
                None => Err(IdError::HexDecode),
                Some(d) => into_payload_32(d),
            }
        } else {
            let len = byte_len(s);
            if len != 64 {
                return Err(IdError::BareLength { got: len });
            }
            match hex_decode(s) {
                None => Err(IdError::HexDecode),
                Some(d) => into_payload_32(d),
            }
        }
    }
}

/// The outcome of parsing `s` as a chain hash.
pub open spec fn parse_chain_hash_spec(s: Seq<char>) -> Result<Seq<u8>, IdErrorView> {
    parse_id_spec(s, seq!['l', 's', 'c', 'h'])
}

/// The outcome of parsing `s` as a token id.
pub open spec fn parse_token_id_spec(s: Seq<char>) -> Result<Seq<u8>, IdErrorView> {
    parse_id_spec(s, seq!['t', 'o', 'k', 'e', 'n', '_'])
}

/// Parse a 32-byte chain hash: bech32m `lsch1...`, `0x`-prefixed hex, or
/// bare 64-character hex.
pub fn parse_chain_hash(s: &str) -> (r: Result<[u8; 32], IdError>)
    ensures
        id_result_view(r) == parse_chain_hash_spec(s@),
{
    proof {
        reveal_strlit("lsch");
    }
    assert(CHAIN_HASH_HRP@ =~= seq!['l', 's', 'c', 'h']);
    parse_32_byte_id(s, CHAIN_HASH_HRP)
}

/// Parse the bytes of a token id: bech32m `token_1...`, `0x`-prefixed hex,
/// or bare 64-character hex.
pub fn parse_token_id(s: &str) -> (r: Result<[u8; 32], IdError>)
    ensures
        id_result_view(r) == parse_token_id_spec(s@),
{
    proof {
        reveal_strlit("token_");
    }
    assert(TOKEN_ID_HRP@ =~= seq!['t', 'o', 'k', 'e', 'n', '_']);
    parse_32_byte_id(s, TOKEN_ID_HRP)
}

/// Bech32m-encode a 32-byte chain hash as `lsch1...`.
///
/// The string parses back to the same bytes as a chain hash, and is never
/// accepted as a token id.
pub fn encode_chain_hash(bytes: &[u8; 32]) -> (r: String)
    ensures
        r@ == bech32m_encoding(seq!['l', 's', 'c', 'h'], bytes@),
        has_prefix(r@, seq!['l', 's', 'c', 'h', '1']),
        parse_chain_hash_spec(r@) == Ok::<Seq<u8>, IdErrorView>(bytes@),
        parse_token_id_spec(r@) is Err,
{
    proof {
        reveal_strlit("lsch");
    }
    assert(CHAIN_HASH_HRP@ =~= seq!['l', 's', 'c', 'h']);
    assert(lowercase_hrp(CHAIN_HASH_HRP@));
    let r = bech32m_encode(CHAIN_HASH_HRP, bytes.as_slice());
    proof {
        assert(has_prefix(r@, CHAIN_HASH_HRP@.push('1')));
        assert(CHAIN_HASH_HRP@.push('1') =~= seq!['l', 's', 'c', 'h', '1']);
        assert(r@[0] == r@.subrange(0, 5)[0]);
        assert(r@[0] == 'l');
        let token = seq!['t', 'o', 'k', 'e', 'n', '_'];
        assert(!has_prefix(r@, token.push('1'))) by {
            if has_prefix(r@, token.push('1')) {
                assert(r@.subrange(0, 7)[0] == r@[0]);
            }
        }
        assert(!is_hex_digit(r@[0]));
        assert(hex_decoded(r@) is None);
    }
    r
}

/// Bech32m-encode the bytes of a token id as `token_1...`.
///
/// The string parses back to the same bytes as a token id, and is never
/// accepted as a chain hash.
pub fn encode_token_id(bytes: &[u8; 32]) -> (r: String)
    ensures
        r@ == bech32m_encoding(seq!['t', 'o', 'k', 'e', 'n', '_'], bytes@),
        has_prefix(r@, seq!['t', 'o', 'k', 'e', 'n', '_', '1']),
        parse_token_id_spec(r@) == Ok::<Seq<u8>, IdErrorView>(bytes@),
        parse_chain_hash_spec(r@) is Err,
{
    proof {
        reveal_strlit("token_");
    }
    let ghost hrp = seq!['t', 'o', 'k', 'e', 'n', '_'];
    assert(TOKEN_ID_HRP@ =~= hrp);
    assert(lowercase_hrp(TOKEN_ID_HRP@));
    let r = bech32m_encode(TOKEN_ID_HRP, bytes.as_slice());
    proof {
        assert(has_prefix(r@, hrp.push('1')));
        assert(hrp.push('1') =~= seq!['t', 'o', 'k', 'e', 'n', '_', '1']);
        assert(r@[0] == r@.subrange(0, 7)[0]);
        assert(r@[0] == 't');
        assert(!has_prefix(r@, seq!['l', 's', 'c', 'h'].push('1'))) by {
            if has_prefix(r@, seq!['l', 's', 'c', 'h'].push('1')) {
                assert(r@.subrange(0, 5)[0] == r@[0]);
            }
        }
        assert(!is_hex_digit(r@[0]));
        assert(hex_decoded(r@) is None);
    }
    r
}

/// A 32-byte value written as 64 lowercase hex digits, bare or after `0x` /
/// `0X`, parses back to itself as a chain hash and as a token id.
pub proof fn law_hex_forms_parse_back(b: Seq<u8>)
    requires
        b.len() == 32,
    ensures
        parse_chain_hash_spec(hex_lower(b)) == Ok::<Seq<u8>, IdErrorView>(b),
        parse_chain_hash_spec(seq!['0', 'x'] + hex_lower(b)) == Ok::<Seq<u8>, IdErrorView>(b),
        parse_chain_hash_spec(seq!['0', 'X'] + hex_lower(b)) == Ok::<Seq<u8>, IdErrorView>(b),
        parse_token_id_spec(hex_lower(b)) == Ok::<Seq<u8>, IdErrorView>(b),
        parse_token_id_spec(seq!['0', 'x'] + hex_lower(b)) == Ok::<Seq<u8>, IdErrorView>(b),
        parse_token_id_spec(seq!['0', 'X'] + hex_lower(b)) == Ok::<Seq<u8>, IdErrorView>(b),
{
    lemma_hex_forms(b, seq!['l', 's', 'c', 'h']);
    lemma_hex_forms(b, seq!['t', 'o', 'k', 'e', 'n', '_']);
}

proof fn lemma_hex_forms(b: Seq<u8>, hrp: Seq<char>)
    requires
        b.len() == 32,
        hrp.len() > 0,
        !is_hex_digit(hrp[0]),
        hrp[0] != '0',
    ensures
        parse_id_spec(hex_lower(b), hrp) == Ok::<Seq<u8>, IdErrorView>(b),
        parse_id_spec(seq!['0', 'x'] + hex_lower(b), hrp) == Ok::<Seq<u8>, IdErrorView>(b),
        parse_id_spec(seq!['0', 'X'] + hex_lower(b), hrp) == Ok::<Seq<u8>, IdErrorView>(b),
{
    let h = hex_lower(b);
    lemma_hex_lower_digits(b);
    lemma_hex_roundtrip(b);
    is_ascii_chars_encode_utf8(h);
    assert(utf8_len(h) == 64);
    assert(is_hex_digit(h[0]) && is_hex_digit(h[1]));
    assert(!has_prefix(h, hrp.push('1'))) by {
        if has_prefix(h, hrp.push('1')) {
            assert(h.subrange(0, hrp.len() as int + 1)[0] == h[0]);
        }
    }
    assert(!has_0x_prefix(h));
    let p1 = seq!['0', 'x'] + h;
    let p2 = seq!['0', 'X'] + h;
    assert(p1.subrange(2, p1.len() as int) =~= h);
    assert(p2.subrange(2, p2.len() as int) =~= h);
    assert(!has_prefix(p1, hrp.push('1'))) by {
        if has_prefix(p1, hrp.push('1')) {
            assert(p1.subrange(0, hrp.len() as int + 1)[0] == p1[0]);
        }
    }
    assert(!has_prefix(p2, hrp.push('1'))) by {
        if has_prefix(p2, hrp.push('1')) {
            assert(p2.subrange(0, hrp.len() as int + 1)[0] == p2[0]);
        }
    }
}

} // verus!
