use ligate_cli::attest::{
    decode_signer_key, poll_after_fetch, poll_before_fetch, prepare_submission,
    seed_from_key_bytes, select_signer_source, ChainArgs, PollAction, SignerError, SignerSource,
    DEFAULT_MAX_FEE_NANO, MAX_WAIT_NANOS,
};
use ligate_cli::config::IdError;
use ligate_cli::nonce::{account_nonce, NonceError};

fn s(x: &str) -> Option<String> {
    Some(x.to_string())
}

#[test]
fn signer_source_selection() {
    assert!(matches!(select_signer_source(&s("a"), &s("00")), Err(SignerError::BothGiven)));
    assert!(matches!(select_signer_source(&None, &None), Err(SignerError::NoneGiven)));
    match select_signer_source(&s("alice"), &None).unwrap() {
        SignerSource::Keystore { role } => assert_eq!(role, "alice"),
        other => panic!("{other:?}"),
    }
    match select_signer_source(&None, &s("0Xab")).unwrap() {
        SignerSource::InlineHex { key_hex } => assert_eq!(key_hex, "ab"),
        other => panic!("{other:?}"),
    }
    match select_signer_source(&None, &s("ab")).unwrap() {
        SignerSource::InlineHex { key_hex } => assert_eq!(key_hex, "ab"),
        other => panic!("{other:?}"),
    }
}

#[test]
fn signer_key_decoding() {
    assert_eq!(decode_signer_key("0aFF").unwrap(), vec![0x0a, 0xff]);
    assert!(matches!(decode_signer_key("abc"), Err(SignerError::KeyHexDecode)));
    assert!(matches!(decode_signer_key("zz"), Err(SignerError::KeyHexDecode)));
    assert!(matches!(seed_from_key_bytes(&[1u8; 31]), Err(SignerError::SeedLength { got: 31 })));
    assert_eq!(seed_from_key_bytes(&[7u8; 32]).unwrap(), [7u8; 32]);
}

fn chain(hash: &str, max_fee: Option<u128>, nonce: Option<u64>) -> ChainArgs {
    ChainArgs { chain_id: 4321, chain_hash: hash.to_string(), max_fee, nonce }
}

#[test]
fn submission_parameters() {
    let p = prepare_submission(&chain(&"11".repeat(32), None, None), DEFAULT_MAX_FEE_NANO).unwrap();
    assert_eq!(p.chain_id, 4321);
    assert_eq!(p.chain_hash, [0x11u8; 32]);
    assert_eq!(p.max_fee, 200_000_000);
    assert_eq!(p.nonce, None);
    let p = prepare_submission(&chain(&"11".repeat(32), Some(5), Some(9)), DEFAULT_MAX_FEE_NANO).unwrap();
    assert_eq!(p.max_fee, 5);
    assert_eq!(p.nonce, Some(9));
    assert!(matches!(
        prepare_submission(&chain("dead", None, None), DEFAULT_MAX_FEE_NANO),
        Err(IdError::BareLength { got: 4 })
    ));
}

#[test]
fn inclusion_poll_decisions() {
    assert!(matches!(poll_before_fetch(0), PollAction::Fetch));
    assert!(matches!(poll_before_fetch(MAX_WAIT_NANOS), PollAction::Fetch));
    assert!(matches!(poll_before_fetch(MAX_WAIT_NANOS + 1), PollAction::GiveUp));
    assert!(matches!(poll_after_fetch(None), PollAction::Sleep));
    assert!(matches!(poll_after_fetch(Some("")), PollAction::Sleep));
    assert!(matches!(poll_after_fetch(Some(" \n\t\u{3000}")), PollAction::Sleep));
    assert!(matches!(poll_after_fetch(Some("{\"tx\":1}")), PollAction::Included));
}

#[test]
fn nonce_from_body() {
    assert_eq!(account_nonce("", None).unwrap(), 0);
    assert_eq!(account_nonce("  \n", Some(5)).unwrap(), 0);
    assert_eq!(account_nonce("{\"value\":7}", Some(7)).unwrap(), 7);
    assert!(matches!(account_nonce("garbage", None), Err(NonceError::Unparsable)));
}

#[test]
fn whitespace_matches_std() {
    for c in ['\u{85}', '\u{a0}', '\u{1680}', '\u{2000}', '\u{200a}', '\u{2028}', '\u{2029}', '\u{202f}', '\u{205f}', '\u{3000}', '\u{b}', '\u{c}', 'a', '\u{200b}', '\u{180e}'] {
        let s = c.to_string();
        let blank = matches!(poll_after_fetch(Some(&s)), PollAction::Sleep);
        assert_eq!(blank, c.is_whitespace(), "{:?}", c);
    }
}

#[test]
fn is_whitespace_agrees_with_std_on_every_char() {
    for u in 0u32..=0x10FFFF {
        if let Some(c) = char::from_u32(u) {
            assert_eq!(ligate_cli::text::is_whitespace(c), c.is_whitespace(), "{u:#x}");
        }
    }
}
