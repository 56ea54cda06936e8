use ligate_cli::keys::{
    address_bytes_of, derive_key_material, file_line_of, key_file_name, address_file_name,
    list_line, list_roles, read_address, read_key_hex, resolve_signer_key, role_from_file_name,
    sort_roles, KeystoreError,
};
use ligate_cli::attest::{decode_signer_key, seed_from_key_bytes};
use sha2::Digest;

// RFC 8032, test 1.
const SEED: &str = "9d61b19deffd5a60ba844af492ec2cc44449c5697b326919703bac031cae7f60";
const PUBKEY: &str = "d75a980182b10ab7d54bfed3c964073a0ee172f3daa62325af021a68f707511a";

fn seed() -> [u8; 32] {
    hex::decode(SEED).unwrap().try_into().unwrap()
}

#[test]
fn derives_rfc8032_public_key_and_address() {
    let m = derive_key_material(&seed());
    assert_eq!(m.key_hex, SEED);
    assert_eq!(hex::encode(m.pubkey), PUBKEY);
    let digest = sha2::Sha256::digest(m.pubkey);
    assert_eq!(&m.address_bytes[..], &digest[..28]);
    assert_eq!(address_bytes_of(&m.pubkey), m.address_bytes);
}

#[test]
fn key_file_reads_back_to_seed() {
    let m = derive_key_material(&seed());
    let contents = file_line_of(&m.key_hex);
    assert_eq!(contents.len(), 65);
    let hex_text = read_key_hex(&contents).unwrap();
    assert_eq!(hex_text.len(), 64);
    let bytes = decode_signer_key(&hex_text).unwrap();
    assert_eq!(seed_from_key_bytes(&bytes).unwrap(), seed());
}

#[test]
fn read_key_hex_rejects_wrong_length() {
    assert!(matches!(read_key_hex("abcd\n"), Err(KeystoreError::KeyLength { got: 4 })));
    let long = format!("{}\n\n", "a".repeat(66));
    assert!(matches!(read_key_hex(&long), Err(KeystoreError::KeyLength { got: 66 })));
    assert!(matches!(read_key_hex(&"z".repeat(64)), Err(KeystoreError::KeyNotHex)));
    assert!(matches!(read_key_hex(&format!("{}g\n", "a".repeat(63))), Err(KeystoreError::KeyNotHex)));
    assert!(matches!(read_key_hex(&format!("{}é", "a".repeat(62))), Err(KeystoreError::KeyNotHex)));
    assert_eq!(read_key_hex(&"A".repeat(64)).unwrap(), "A".repeat(64));
    let ok = format!("{}\n\n\n", "a".repeat(64));
    assert_eq!(read_key_hex(&ok).unwrap(), "a".repeat(64));
}

#[test]
fn read_address_trims_newlines() {
    assert_eq!(read_address("lig1abc\n"), "lig1abc");
    assert_eq!(read_address("lig1abc\n\n"), "lig1abc");
    assert_eq!(read_address("lig1abc"), "lig1abc");
    assert_eq!(read_address("lig1abc \n"), "lig1abc ");
}

#[test]
fn file_names() {
    assert_eq!(key_file_name("alice"), "alice.key");
    assert_eq!(address_file_name("alice"), "alice.address");
}

#[test]
fn resolve_signer_key_picks_directory() {
    let f = resolve_signer_key("op", Some("/ks"), Some("/default")).unwrap();
    assert_eq!(f.dir, "/ks");
    assert_eq!(f.file_name, "op.key");
    let f = resolve_signer_key("op", None, Some("/default")).unwrap();
    assert_eq!(f.dir, "/default");
    assert!(matches!(resolve_signer_key("op", None, None), Err(KeystoreError::NoDefaultDir)));
}

#[test]
fn roles_from_file_names() {
    assert_eq!(role_from_file_name("alice.key").as_deref(), Some("alice"));
    assert_eq!(role_from_file_name("a.b.key").as_deref(), Some("a.b"));
    assert_eq!(role_from_file_name(".key"), None);
    assert_eq!(role_from_file_name("alice.address"), None);
    assert_eq!(role_from_file_name("key"), None);
    assert_eq!(role_from_file_name("alice.keys"), None);
}

#[test]
fn list_and_sort_roles() {
    let names: Vec<String> = ["bob.key", "bob.address", "alice.key", "alice.address", "notes.txt", "Zed.key"]
        .iter()
        .map(|s| s.to_string())
        .collect();
    let roles = list_roles(&names);
    assert_eq!(roles, vec!["bob", "alice", "Zed"]);
    let sorted = sort_roles(roles);
    assert_eq!(sorted, vec!["Zed", "alice", "bob"]);
}

#[test]
fn sort_roles_matches_std_sort() {
    let input: Vec<String> = ["b", "ab", "a", "", "é", "abc", "ab", "z"].iter().map(|s| s.to_string()).collect();
    let mut expected = input.clone();
    expected.sort();
    assert_eq!(sort_roles(input), expected);
}

#[test]
fn list_line_pads_role_to_twenty() {
    assert_eq!(list_line("alice", Some("lig1xyz")), format!("{:20} {}", "alice", "lig1xyz"));
    assert_eq!(list_line("alice", None), format!("{:20} {}", "alice", "<missing>"));
    let long = "r".repeat(25);
    assert_eq!(list_line(&long, Some("a")), format!("{long} a"));
    assert_eq!(list_line("é", Some("a")), format!("{:20} {}", "é", "a"));
}
