use ligate_cli::config::{encode_chain_hash, encode_token_id, parse_chain_hash, parse_token_id, IdError};

const ZERO_BYTES: [u8; 32] = [0u8; 32];

fn fixture_bytes() -> [u8; 32] {
    let mut out = [0u8; 32];
    for (i, b) in out.iter_mut().enumerate() {
        *b = (i as u8).wrapping_mul(7).wrapping_add(3);
    }
    out
}

fn bech32m(hrp: &str, data: &[u8]) -> String {
    bech32::encode::<bech32::Bech32m>(bech32::Hrp::parse(hrp).unwrap(), data).unwrap()
}

#[test]
fn chain_hash_bare_hex_roundtrip() {
    let h = "00".repeat(32);
    let bytes = parse_chain_hash(&h).unwrap();
    assert_eq!(bytes, ZERO_BYTES);
}

#[test]
fn chain_hash_prefixed_hex_roundtrip() {
    let h = format!("0x{}", "00".repeat(32));
    let bytes = parse_chain_hash(&h).unwrap();
    assert_eq!(bytes, ZERO_BYTES);
}

#[test]
fn chain_hash_bech32m_roundtrip() {
    let bytes = fixture_bytes();
    let s = encode_chain_hash(&bytes);
    assert!(s.starts_with("lsch1"), "got {s}");
    let decoded = parse_chain_hash(&s).unwrap();
    assert_eq!(decoded, bytes);
}

#[test]
fn chain_hash_rejects_short_bare_hex() {
    assert!(parse_chain_hash("dead").is_err());
}

#[test]
fn chain_hash_rejects_wrong_hrp_bech32m() {
    let bytes = fixture_bytes();
    let token_str = encode_token_id(&bytes);
    assert!(parse_chain_hash(&token_str).is_err());
}

#[test]
fn token_id_bare_hex_roundtrip() {
    let h = "00".repeat(32);
    let id = parse_token_id(&h).unwrap();
    assert_eq!(&id, &ZERO_BYTES);
}

#[test]
fn token_id_bech32m_roundtrip() {
    let bytes = fixture_bytes();
    let s = encode_token_id(&bytes);
    assert!(s.starts_with("token_1"), "got {s}");
    let id = parse_token_id(&s).unwrap();
    assert_eq!(&id, &bytes);
}

#[test]
fn encode_chain_hash_starts_with_lsch1() {
    let s = encode_chain_hash(&ZERO_BYTES);
    assert!(s.starts_with("lsch1"), "got {s}");
}

#[test]
fn encode_token_id_starts_with_token1() {
    let s = encode_token_id(&ZERO_BYTES);
    assert!(s.starts_with("token_1"), "got {s}");
}

#[test]
fn encode_chain_hash_matches_bech32m() {
    let bytes = fixture_bytes();
    assert_eq!(encode_chain_hash(&bytes), bech32m("lsch", &bytes));
    assert_eq!(encode_token_id(&bytes), bech32m("token_", &bytes));
}

#[test]
fn chain_hash_accepts_uppercase_prefix_and_digits() {
    let bytes = fixture_bytes();
    let h = hex::encode_upper(bytes);
    assert_eq!(parse_chain_hash(&format!("0X{h}")).unwrap(), bytes);
    assert_eq!(parse_chain_hash(&h).unwrap(), bytes);
    assert_eq!(parse_chain_hash(&hex::encode(bytes)).unwrap(), bytes);
}

#[test]
fn chain_hash_bech32m_checksum_error() {
    let mut s = encode_chain_hash(&ZERO_BYTES);
    let last = s.pop().unwrap();
    s.push(if last == 'q' { 'p' } else { 'q' });
    assert!(matches!(parse_chain_hash(&s), Err(IdError::Bech32Decode)));
}

#[test]
fn chain_hash_wrong_hrp_after_prefix() {
    let s = bech32m("lsch1x", &ZERO_BYTES);
    match parse_chain_hash(&s) {
        Err(IdError::WrongHrp { expected, found }) => {
            assert_eq!(expected, "lsch");
            assert_eq!(found, "lsch1x");
        }
        other => panic!("unexpected {other:?}"),
    }
}

#[test]
fn chain_hash_wrong_payload_length() {
    let s = bech32m("lsch", &[1u8; 31]);
    assert!(matches!(parse_chain_hash(&s), Err(IdError::PayloadLength { got: 31 })));
}

#[test]
fn chain_hash_prefixed_length_error() {
    assert!(matches!(parse_chain_hash("0xdead"), Err(IdError::PrefixedHexLength { got: 4 })));
}

#[test]
fn chain_hash_bare_length_counts_bytes() {
    assert!(matches!(parse_chain_hash("dead"), Err(IdError::BareLength { got: 4 })));
    // 62 ASCII characters and one two-byte character: 64 bytes, 63 chars.
    let s = format!("{}é", "0".repeat(62));
    assert!(matches!(parse_chain_hash(&s), Err(IdError::HexDecode)));
    let s = format!("{}é", "0".repeat(63));
    assert!(matches!(parse_chain_hash(&s), Err(IdError::BareLength { got: 65 })));
}

#[test]
fn chain_hash_hex_decode_error() {
    assert!(matches!(parse_chain_hash(&"g".repeat(64)), Err(IdError::HexDecode)));
    assert!(matches!(parse_chain_hash(&format!("0x{}", "zz".repeat(32))), Err(IdError::HexDecode)));
}

#[test]
fn token_id_rejects_chain_hash_string() {
    let s = encode_chain_hash(&fixture_bytes());
    assert!(parse_token_id(&s).is_err());
}

#[test]
fn list_roles_once_each_for_distinct_names() {
    let names: Vec<String> = ["alice.key", "alice.address", "bob.key", "bob.address", "x.key.key"]
        .iter().map(|s| s.to_string()).collect();
    let mut roles = ligate_cli::keys::list_roles(&names);
    roles.sort();
    assert_eq!(roles, vec!["alice", "bob", "x.key"]);
}
