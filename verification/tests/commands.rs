use ligate_cli::faucet::{faucet_endpoint, faucet_failure_message, DEFAULT_FAUCET_URL};
use ligate_cli::text::u64_to_decimal;
use ligate_cli::query::{classify_query_status, QueryStatus};
use ligate_cli::register_attestor_set::{check_threshold_nonzero, check_threshold_within, ThresholdError};
use ligate_cli::register_schema::{
    check_fee_routing, parse_payload_shape_hash, schema_payload_shape_hash, SchemaDoc, SchemaDocError,
};
use ligate_cli::sign_attestation::{
    payload_hash_of_file, select_payload_hash_source, sign_output, PayloadHashError,
    PayloadHashSource, SignOutput,
};
use ligate_cli::submit_attestation::{check_signatures_present, decode_signature, SignaturesError};
use ligate_cli::transfer::{
    select_amount, transfer_max_fee, transfer_mode, AmountSource, TransferError, TransferMode,
};

#[test]
fn faucet_url() {
    assert_eq!(faucet_endpoint(DEFAULT_FAUCET_URL), "https://faucet.ligate.io/faucet");
    assert_eq!(faucet_endpoint("http://h:8080//"), "http://h:8080/faucet");
}

#[test]
fn query_status_classes() {
    assert!(matches!(classify_query_status(404), QueryStatus::NotFound));
    assert!(matches!(classify_query_status(200), QueryStatus::Success));
    assert!(matches!(classify_query_status(299), QueryStatus::Success));
    assert!(matches!(classify_query_status(300), QueryStatus::Unexpected));
    assert!(matches!(classify_query_status(500), QueryStatus::Unexpected));
}

#[test]
fn attestor_set_threshold() {
    assert!(matches!(check_threshold_nonzero(0), Err(ThresholdError::Zero)));
    assert!(check_threshold_nonzero(1).is_ok());
    assert!(check_threshold_within(2, 2).is_ok());
    assert!(matches!(
        check_threshold_within(3, 2),
        Err(ThresholdError::ExceedsMembers { threshold: 3, members: 2 })
    ));
}

fn doc(bps: u16, addr: Option<&str>, hash: Option<&str>) -> SchemaDoc {
    SchemaDoc {
        name: "themisra.proof-of-prompt".to_string(),
        version: 1,
        attestor_set_id: "las1x".to_string(),
        fee_routing_bps: bps,
        fee_routing_addr: addr.map(|s| s.to_string()),
        payload_shape_hash: hash.map(|s| s.to_string()),
    }
}

#[test]
fn schema_fee_routing_invariant() {
    assert!(check_fee_routing(&doc(0, None, None)).is_ok());
    assert!(check_fee_routing(&doc(10, Some("lig1x"), None)).is_ok());
    assert!(matches!(check_fee_routing(&doc(10, None, None)), Err(SchemaDocError::FeeRouting)));
    assert!(matches!(check_fee_routing(&doc(0, Some("lig1x"), None)), Err(SchemaDocError::FeeRouting)));
}

#[test]
fn schema_payload_shape_hash_defaults_and_parses() {
    assert_eq!(schema_payload_shape_hash(&doc(0, None, None)).unwrap(), [0u8; 32]);
    let h = "ab".repeat(32);
    assert_eq!(parse_payload_shape_hash(&h).unwrap(), [0xab; 32]);
    assert_eq!(parse_payload_shape_hash(&format!("0x{h}")).unwrap(), [0xab; 32]);
    assert_eq!(schema_payload_shape_hash(&doc(0, None, Some(&h))).unwrap(), [0xab; 32]);
    assert!(matches!(parse_payload_shape_hash("abcd"), Err(SchemaDocError::PayloadShapeLength { got: 2 })));
    assert!(matches!(parse_payload_shape_hash("xyz"), Err(SchemaDocError::PayloadShapeHex)));
}

#[test]
fn signatures_file_entries() {
    assert!(matches!(check_signatures_present(0), Err(SignaturesError::Empty)));
    assert!(check_signatures_present(1).is_ok());
    assert_eq!(decode_signature("0xabcd").unwrap(), vec![0xab, 0xcd]);
    assert_eq!(decode_signature(&"11".repeat(96)).unwrap().len(), 96);
    assert!(matches!(decode_signature(&"11".repeat(97)), Err(SignaturesError::SigTooLong)));
    assert!(matches!(decode_signature("0xzz"), Err(SignaturesError::SigHex)));
}

#[test]
fn sign_attestation_rules() {
    let some = |s: &str| Some(s.to_string());
    assert!(matches!(select_payload_hash_source(&some("lph1"), &some("f")), Err(PayloadHashError::BothGiven)));
    assert!(matches!(select_payload_hash_source(&None, &None), Err(PayloadHashError::NoneGiven)));
    assert!(matches!(select_payload_hash_source(&some("lph1"), &None), Ok(PayloadHashSource::Given(g)) if g == "lph1"));
    assert!(matches!(select_payload_hash_source(&None, &some("p.bin")), Ok(PayloadHashSource::File(f)) if f == "p.bin"));
    assert_eq!(
        hex::encode(payload_hash_of_file(b"abc")),
        "ba7816bf8f01cfea414140de5dae2223b00361a396177a9cb410ff61f20015ad"
    );
    assert!(matches!(sign_output(false, false), SignOutput::Text));
    assert!(matches!(sign_output(true, false), SignOutput::JsonStdout));
    assert!(matches!(sign_output(false, true), SignOutput::JsonFile { announce: true }));
    assert!(matches!(sign_output(true, true), SignOutput::JsonFile { announce: false }));
}

#[test]
fn transfer_rules() {
    assert!(matches!(select_amount(true, Some(1)), Err(TransferError::BothAmounts)));
    assert!(matches!(select_amount(false, None), Err(TransferError::NoAmount)));
    assert!(matches!(select_amount(true, None), Ok(AmountSource::Lgt)));
    assert!(matches!(select_amount(false, Some(42)), Ok(AmountSource::Nano(42))));
    assert!(matches!(transfer_mode(true, Some(3), false), Ok(TransferMode::PrintOffline { nonce: 3 })));
    assert!(matches!(transfer_mode(true, None, true), Err(TransferError::MissingNonce)));
    assert!(matches!(transfer_mode(false, None, true), Ok(TransferMode::Submit { nonce_override: None })));
    assert!(matches!(transfer_mode(false, Some(4), true), Ok(TransferMode::Submit { nonce_override: Some(4) })));
    assert!(matches!(transfer_mode(false, Some(4), false), Err(TransferError::SubmitNeedsKeystoreSigner)));
    assert!(matches!(transfer_mode(true, Some(4), false), Ok(TransferMode::PrintOffline { nonce: 4 })));
    assert_eq!(transfer_max_fee(None), 100_000_000);
    assert_eq!(transfer_max_fee(Some(7)), 7);
}

#[test]
fn signature_written_as_hex_reads_back() {
    let sig = [0x5au8; 64];
    assert_eq!(decode_signature(&hex::encode(sig)).unwrap(), sig.to_vec());
    assert_eq!(decode_signature(&format!("0x{}", hex::encode(sig))).unwrap(), sig.to_vec());
    assert_eq!(decode_signature("").unwrap(), Vec::<u8>::new());
}

#[test]
fn faucet_failure_messages() {
    assert_eq!(
        faucet_failure_message("429 Too Many Requests", "rate limited", Some(3600)),
        "faucet returned 429 Too Many Requests: rate limited (retry in 3600s)"
    );
    assert_eq!(
        faucet_failure_message("500 Internal Server Error", "<html>", None),
        "faucet returned 500 Internal Server Error: <html>"
    );
    assert_eq!(faucet_failure_message("400", "x", Some(0)), "faucet returned 400: x (retry in 0s)");
}

#[test]
fn decimal_matches_display() {
    for n in [0u64, 1, 9, 10, 99, 100, 12345, u64::MAX, u64::MAX - 1, 1_000_000_000] {
        assert_eq!(u64_to_decimal(n), n.to_string());
    }
}
