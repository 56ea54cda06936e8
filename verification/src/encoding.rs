//! Byte codecs and hashes the CLI takes from outside crates: hex (`hex`),
//! bech32m (`bech32`), SHA-256 (`sha2`) and Ed25519 key derivation
//! (`ed25519-dalek`). Every function here is a trusted wrapper: Verus
//! believes its contract, which restates what the crate's source does.

use vstd::prelude::*;
use sha2::Digest;

verus! {

// ---------------------------------------------------------------- hex

/// `c` is an ASCII hex digit (either case).
pub open spec fn is_hex_digit(c: char) -> bool {
    ('0' <= c && c <= '9') || ('a' <= c && c <= 'f') || ('A' <= c && c <= 'F')
}

/// Numeric value of a hex digit.
pub open spec fn hex_value(c: char) -> int {
    if '0' <= c && c <= '9' {
        c as int - '0' as int
    } else if 'a' <= c && c <= 'f' {
        c as int - 'a' as int + 10
    } else {
        c as int - 'A' as int + 10
    }
}

/// Every character of `s` is a hex digit.
pub open spec fn all_hex_digits(s: Seq<char>) -> bool {
    forall|i: int| 0 <= i < s.len() ==> is_hex_digit(#[trigger] s[i])
}

/// What hex-decoding `s` yields: `None` unless `s` has an even number of
/// characters that are all hex digits; otherwise one byte per digit pair,
/// high nibble first.
pub open spec fn hex_decoded(s: Seq<char>) -> Option<Seq<u8>> {
    if s.len() % 2 == 0 && all_hex_digits(s) {
        Some(Seq::new(s.len() / 2, |i: int| (hex_value(s[2 * i]) * 16 + hex_value(s[2 * i + 1])) as u8))
    } else {
        None
    }
}

/// Lowercase hex digit for a nibble `v` in `0..16`.
pub open spec fn lower_hex_digit(v: int) -> char {
    if v == 0 { '0' } else if v == 1 { '1' } else if v == 2 { '2' } else if v == 3 { '3' }
    else if v == 4 { '4' } else if v == 5 { '5' } else if v == 6 { '6' } else if v == 7 { '7' }
    else if v == 8 { '8' } else if v == 9 { '9' } else if v == 10 { 'a' } else if v == 11 { 'b' }
    else if v == 12 { 'c' } else if v == 13 { 'd' } else if v == 14 { 'e' } else { 'f' }
}

/// Lowercase hex encoding of `data`: two digits per byte, high nibble first.
pub open spec fn hex_lower(data: Seq<u8>) -> Seq<char> {
    Seq::new(
        2 * data.len(),
        |i: int|
            if i % 2 == 0 {
                lower_hex_digit(data[i / 2] as int / 16)
            } else {
                lower_hex_digit(data[i / 2] as int % 16)
            },
    )
}

/// `hex::decode`: decodes `s` (upper- or lowercase digits).
///
/// The crate rejects an odd byte length and any byte that is not an ASCII
/// hex digit; a non-ASCII character always contributes such a byte, so the
/// outcome is `hex_decoded` over the characters of `s`.
#[verifier::external_body]
pub fn hex_decode(s: &str) -> (r: Option<Vec<u8>>)
    ensures
        match r {
            Some(v) => hex_decoded(s@) == Some(v@),
            None => hex_decoded(s@) is None,
        },
{
    hex::decode(s).ok()
}

/// `hex::encode`: lowercase hex string of `data`.
#[verifier::external_body]
pub fn hex_encode(data: &[u8]) -> (r: String)
    ensures
        r@ == hex_lower(data@),
{
    hex::encode(data)
}

// ------------------------------------------------------------- bech32

/// A human-readable part that `bech32::Hrp::parse` accepts and that
/// `bech32` encodes unchanged: 1 to 83 printable ASCII characters
/// (33..=126) with no uppercase letter.
pub open spec fn lowercase_hrp(hrp: Seq<char>) -> bool {
    &&& 1 <= hrp.len() <= 83
    &&& forall|i: int|
        0 <= i < hrp.len() ==> 33 <= (#[trigger] hrp[i]) as int <= 126 && !('A' <= hrp[i]
            && hrp[i] <= 'Z')
}

/// What `bech32::decode` returns for `s`: the human-readable part and
/// the data bytes, or `None` when `s` is not a checksummed bech32 or
/// bech32m string.
pub uninterp spec fn bech32_decoding(s: Seq<char>) -> Option<(Seq<char>, Seq<u8>)>;

/// The bech32m string that `bech32::encode::<Bech32m>` makes of `data`
/// under the human-readable part `hrp`.
pub uninterp spec fn bech32m_encoding(hrp: Seq<char>, data: Seq<u8>) -> Seq<char>;

/// `bech32::decode`: splits `s` at its last `1`, checks the bech32m (or
/// bech32) checksum and converts the 5-bit data part to bytes. The
/// decoding itself is not restated: the result is `bech32_decoding(s)`.
#[verifier::external_body]
pub fn bech32_decode(s: &str) -> (r: Option<(String, Vec<u8>)>)
    ensures
        match r {
            Some((hrp, data)) => bech32_decoding(s@) == Some((hrp@, data@)),
            None => bech32_decoding(s@) is None,
        },
{
    match bech32::decode(s) {
        Ok((hrp, data)) => Some((hrp.as_str().to_string(), data)),
        Err(_) => None,
    }
}

/// `bech32::Hrp::parse` followed by `bech32::encode::<Bech32m>`.
///
/// Claimed of the crate, for a valid lowercase HRP and at most 512 data
/// bytes (far below the 1023-character code length, so neither call
/// fails): the string is the HRP, the separator `1`, then the data and
/// checksum characters; and `bech32::decode` of it gives back the same
/// HRP and data (the crate's round-trip property: the 5-bit padding is
/// under one byte and the HRP is emitted in lowercase, as given).
/// The characters after the separator are not restated.
#[verifier::external_body]
pub fn bech32m_encode(hrp: &str, data: &[u8]) -> (r: String)
    requires
        lowercase_hrp(hrp@),
        data@.len() <= 512,
    ensures
        r@ == bech32m_encoding(hrp@, data@),
        crate::text::has_prefix(r@, hrp@.push('1')),
        bech32_decoding(r@) == Some((hrp@, data@)),
{
    let hrp = bech32::Hrp::parse(hrp).unwrap();
    bech32::encode::<bech32::Bech32m>(hrp, data).unwrap()
}

// ------------------------------------------------------------ SHA-256

/// The SHA-256 digest of `data`.
pub uninterp spec fn sha256_of(data: Seq<u8>) -> Seq<u8>;

/// `<sha2::Sha256 as Digest>::digest`: the 32-byte SHA-256 digest of
/// `data`, named `sha256_of`.
#[verifier::external_body]
pub fn sha256(data: &[u8]) -> (r: [u8; 32])
    ensures
        r@ == sha256_of(data@),
{
    sha2::Sha256::digest(data).into()
}

// ------------------------------------------------------------ Ed25519

/// The compressed Ed25519 public key that a 32-byte secret seed yields.
pub uninterp spec fn ed25519_public_key(seed: Seq<u8>) -> Seq<u8>;

/// `ed25519_dalek::SigningKey::from_bytes(seed)`, then its `to_bytes()`
/// and `verifying_key().to_bytes()`.
///
/// `to_bytes` returns the secret seed the key was made from (the source
/// stores it verbatim); the public key is named `ed25519_public_key`.
#[verifier::external_body]
pub fn ed25519_keypair(seed: &[u8; 32]) -> (r: ([u8; 32], [u8; 32]))
    ensures
        r.0@ == seed@,
        r.1@ == ed25519_public_key(seed@),
{
    let key = ed25519_dalek::SigningKey::from_bytes(seed);
    (key.to_bytes(), key.verifying_key().to_bytes())
}

} // verus!

verus! {

/// Each nibble's lowercase digit is a hex digit that reads back as the nibble.
pub proof fn lemma_lower_hex_digit(v: int)
    requires
        0 <= v < 16,
    ensures
        is_hex_digit(lower_hex_digit(v)),
        hex_value(lower_hex_digit(v)) == v,
        '\0' <= lower_hex_digit(v) <= '\u{7f}',
{
}

/// Lowercase hex text consists of ASCII hex digits.
pub proof fn lemma_hex_lower_digits(data: Seq<u8>)
    ensures
        all_hex_digits(hex_lower(data)),
        vstd::utf8::is_ascii_chars(hex_lower(data)),
        hex_lower(data).len() == 2 * data.len(),
{
    let h = hex_lower(data);
    assert forall|i: int| 0 <= i < h.len() implies is_hex_digit(#[trigger] h[i]) && '\0' <= h[i]
        <= '\u{7f}' by {
        let b = data[i / 2] as int;
        lemma_lower_hex_digit(b / 16);
        lemma_lower_hex_digit(b % 16);
    }
}

/// Hex-decoding the lowercase hex text of `data` gives back `data`.
pub proof fn lemma_hex_roundtrip(data: Seq<u8>)
    ensures
        hex_decoded(hex_lower(data)) == Some(data),
{
    let h = hex_lower(data);
    lemma_hex_lower_digits(data);
    assert(h.len() % 2 == 0);
    let d = Seq::new(h.len() / 2, |i: int| (hex_value(h[2 * i]) * 16 + hex_value(h[2 * i + 1])) as u8);
    assert forall|i: int| 0 <= i < data.len() implies d[i] == data[i] by {
        let b = data[i] as int;
        assert((2 * i) / 2 == i);
        assert((2 * i + 1) / 2 == i);
        assert((2 * i) % 2 == 0);
        assert((2 * i + 1) % 2 == 1);
        lemma_lower_hex_digit(b / 16);
        lemma_lower_hex_digit(b % 16);
        assert(h[2 * i] == lower_hex_digit(b / 16));
        assert(h[2 * i + 1] == lower_hex_digit(b % 16));
        assert(b / 16 * 16 + b % 16 == b);
    }
    assert(d =~= data);
}

} // verus!
