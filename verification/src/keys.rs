//! Local Ed25519 keystore rules.
//!
//! Each role gets two files: `<role>.key` (the 32-byte secret seed as 64
//! lowercase hex digits and a newline) and `<role>.address` (the `lig1...`
//! address and a newline). The address bytes are `SHA-256(pubkey)[..28]`.
//! The files themselves are read and written by the binary; this module
//! decides their names and contents and checks what is read back.

use vstd::prelude::*;
use crate::config::{byte_len, utf8_len};
use crate::encoding::{
    all_hex_digits, ed25519_keypair, ed25519_public_key, hex_decoded, is_hex_digit, hex_encode, hex_lower, lemma_hex_lower_digits,
    lemma_hex_roundtrip, sha256, sha256_of,
};
use crate::text::{
    concat, ends_with, has_suffix, lemma_lex_le_transitive, lemma_lex_total, lex_le, lex_lt,
    lemma_trim_end_noop, pad_right_20, pad_right_spec, str_lex_le, strip_0x_spec, trim_end_char,
    trim_end_spec,
};

verus! {

/// `ligate keys` subcommands.
#[derive(Debug)]
pub enum KeysCmd {
    /// Generate a new keypair and write `<name>.key` + `<name>.address`.
    Generate { name: String, output: Option<String> },
    /// List all roles in the keystore.
    List { keystore: Option<String> },
    /// Show the address for one role (or, with `pubkey`, its `lpk1...`
    /// public key).
    Show { name: String, keystore: Option<String>, pubkey: bool },
}

/// Result of generating one role-tagged keypair.
#[derive(Debug)]
pub struct GeneratedKey {
    pub role: String,
    pub address: String,
    /// The `lpk1...` public key.
    pub pubkey: String,
    pub key_path: String,
    pub address_path: String,
}

/// What a 32-byte secret seed determines: the key file's hex text, the
/// Ed25519 public key and the 28 address bytes.
#[derive(Debug)]
pub struct KeyMaterial {
    pub key_hex: String,
    pub pubkey: [u8; 32],
    pub address_bytes: [u8; 28],
}

/// Address bytes of a public key: the first 28 bytes of its SHA-256.
pub open spec fn address_bytes_spec(pubkey: Seq<u8>) -> Seq<u8> {
    sha256_of(pubkey).take(28)
}

/// Derives the key material for a secret seed.
pub fn derive_key_material(seed: &[u8; 32]) -> (m: KeyMaterial)
    ensures
        m.key_hex@ == hex_lower(seed@),
        m.pubkey@ == ed25519_public_key(seed@),
        m.address_bytes@ == address_bytes_spec(m.pubkey@),
        m.address_bytes@ == sha256_of(ed25519_public_key(seed@)).take(28),
{
    let (secret, pubkey) = ed25519_keypair(seed);
    let key_hex = hex_encode(secret.as_slice());
    let address_bytes = address_bytes_of(&pubkey);
    KeyMaterial { key_hex, pubkey, address_bytes }
}

/// A key's address is taken from the public key exactly as generated: its
/// 28 bytes are the first 28 bytes of the SHA-256 digest of that key, with no
/// bit of the key changed first.
pub proof fn law_address_is_digest_prefix(pubkey: Seq<u8>)
    ensures
        address_bytes_spec(pubkey) == sha256_of(pubkey).take(28),
{
}

/// `SHA-256(pubkey)[..28]`.
pub fn address_bytes_of(pubkey: &[u8; 32]) -> (a: [u8; 28])
    ensures
        a@ == address_bytes_spec(pubkey@),
        a@ == sha256_of(pubkey@).take(28),
{
    let digest = sha256(pubkey.as_slice());
    let mut a = [0u8; 28];
    let mut i: usize = 0;
    while i < 28
        invariant
            digest@ == sha256_of(pubkey@),
            digest@.len() == 32,
            i <= 28,
            forall|j: int| 0 <= j < i ==> a@[j] == digest@[j],
        decreases 28 - i,
    {
        a[i] = digest[i];
        i = i + 1;
    }
    assert(a@ =~= digest@.take(28));
    a
}

/// `text` followed by a newline: what a key or address file holds.
pub open spec fn file_line(text: Seq<char>) -> Seq<char> {
    text.push('\n')
}

/// The contents written to a key or address file for `text`.
pub fn file_line_of(text: &str) -> (r: String)
    ensures
        r@ == file_line(text@),
{
    let nl = "\n";
    proof {
        reveal_strlit("\n");
    }
    let r = concat(text, nl);
    assert(r@ =~= file_line(text@));
    r
}

/// File name of a role's key file.
pub fn key_file_name(role: &str) -> (r: String)
    ensures
        r@ == role@ + seq!['.', 'k', 'e', 'y'],
{
    let ext = ".key";
    proof {
        reveal_strlit(".key");
    }
    assert(ext@ =~= seq!['.', 'k', 'e', 'y']);
    concat(role, ext)
}

/// File name of a role's address file.
pub fn address_file_name(role: &str) -> (r: String)
    ensures
        r@ == role@ + seq!['.', 'a', 'd', 'd', 'r', 'e', 's', 's'],
{
    let ext = ".address";
    proof {
        reveal_strlit(".address");
    }
    assert(ext@ =~= seq!['.', 'a', 'd', 'd', 'r', 'e', 's', 's']);
    concat(role, ext)
}

/// Why a key could not be located or read.
#[derive(Debug)]
pub enum KeystoreError {
    /// No `--keystore` was given and the OS gave no default data directory.
    NoDefaultDir,
    /// The key file does not hold 64 bytes (after trailing newlines).
    KeyLength { got: usize },
    /// The key file holds 64 bytes that are not all ASCII hex digits.
    KeyNotHex,
}

/// Where a role's key file is: a directory and a file name in it.
#[derive(Debug)]
pub struct KeyFile {
    pub dir: String,
    pub file_name: String,
}

/// Resolves a `--signer NAME` (and optional `--keystore PATH`) to the key
/// file to read: the given keystore, else the OS default keystore
/// directory (`default_dir`, if the OS gave one).
pub fn resolve_signer_key(role: &str, keystore: Option<&str>, default_dir: Option<&str>) -> (r:
    Result<KeyFile, KeystoreError>)
    ensures
        match r {
            Ok(f) => f.file_name@ == role@ + seq!['.', 'k', 'e', 'y'] && match keystore {
                Some(k) => f.dir@ == k@,
                None => default_dir is Some && f.dir@ == default_dir->0@,
            },
            Err(e) => keystore is None && default_dir is None && e is NoDefaultDir,
        },
{
    let dir = match keystore {
        Some(k) => k.to_owned(),
        None => match default_dir {
            Some(d) => d.to_owned(),
            None => return Err(KeystoreError::NoDefaultDir),
        },
    };
    Ok(KeyFile { dir, file_name: key_file_name(role) })
}

/// Why a key file's contents are not a key.
pub enum KeyFileFault {
    /// Not 64 bytes after trailing newlines are removed.
    Length { got: nat },
    /// 64 bytes, but not all ASCII hex digits.
    NotHex,
}

/// The key hex held by a key file's contents: trailing newlines removed,
/// exactly 64 bytes left, all of them ASCII hex digits.
pub open spec fn read_key_hex_spec(contents: Seq<char>) -> Result<Seq<char>, KeyFileFault> {
    let s = trim_end_spec(contents, '\n');
    if utf8_len(s) != 64 {
        Err(KeyFileFault::Length { got: utf8_len(s) })
    } else if !all_hex_digits(s) {
        Err(KeyFileFault::NotHex)
    } else {
        Ok(s)
    }
}

/// Whether `c` is an ASCII hex digit.
pub fn is_hex_digit_char(c: char) -> (r: bool)
    ensures
        r == is_hex_digit(c),
{
    ('0' <= c && c <= '9') || ('a' <= c && c <= 'f') || ('A' <= c && c <= 'F')
}

/// Whether every character of `s` is an ASCII hex digit.
fn all_hex(s: &str) -> (r: bool)
    ensures
        r == all_hex_digits(s@),
{
    let n = s.unicode_len();
    let mut i: usize = 0;
    while i < n
        invariant
            n == s@.len(),
            i <= n,
            forall|j: int| 0 <= j < i ==> is_hex_digit(#[trigger] s@[j]),
        decreases n - i,
    {
        if !is_hex_digit_char(s.get_char(i)) {
            return false;
        }
        i = i + 1;
    }
    true
}

/// Checks a key file's contents and returns its 64-character hex text.
pub fn read_key_hex(contents: &str) -> (r: Result<String, KeystoreError>)
    ensures
        match r {
            Ok(s) => read_key_hex_spec(contents@) == Ok::<Seq<char>, KeyFileFault>(s@),
            Err(KeystoreError::KeyLength { got }) => read_key_hex_spec(contents@) == Err::<
                Seq<char>,
                KeyFileFault,
            >(KeyFileFault::Length { got: got as nat }),
            Err(KeystoreError::KeyNotHex) => read_key_hex_spec(contents@) == Err::<
                Seq<char>,
                KeyFileFault,
            >(KeyFileFault::NotHex),
            Err(KeystoreError::NoDefaultDir) => false,
        },
{
    let s = trim_end_char(contents, '\n');
    let len = byte_len(s);
    if len != 64 {
        Err(KeystoreError::KeyLength { got: len })
    } else if !all_hex(s) {
        Err(KeystoreError::KeyNotHex)
    } else {
        Ok(s.to_owned())
    }
}

/// The address held by an address file's contents: trailing newlines removed.
pub fn read_address(contents: &str) -> (r: String)
    ensures
        r@ == trim_end_spec(contents@, '\n'),
{
    trim_end_char(contents, '\n').to_owned()
}

/// The role a keystore file name stands for: `<role>.key` with a non-empty
/// role (the stem of a path whose extension is `key`).
pub open spec fn role_of_file_name(name: Seq<char>) -> Option<Seq<char>> {
    if has_suffix(name, seq!['.', 'k', 'e', 'y']) && name.len() > 4 {
        Some(name.take(name.len() - 4))
    } else {
        None
    }
}

/// The role named by a keystore file name, if it is a key file.
pub fn role_from_file_name(name: &str) -> (r: Option<String>)
    ensures
        match r {
            Some(role) => role_of_file_name(name@) == Some(role@),
            None => role_of_file_name(name@) is None,
        },
{
    let ext = ".key";
    proof {
        reveal_strlit(".key");
    }
    assert(ext@ =~= seq!['.', 'k', 'e', 'y']);
    let n = name.unicode_len();
    if n > 4 && ends_with(name, ext) {
        Some(name.substring_char(0, n - 4).to_owned())
    } else {
        None
    }
}

/// The roles named by the `.key` files among `names`, in the same order.
pub open spec fn roles_of(names: Seq<Seq<char>>) -> Seq<Seq<char>>
    decreases names.len(),
{
    if names.len() == 0 {
        Seq::empty()
    } else {
        let rest = roles_of(names.drop_last());
        match role_of_file_name(names.last()) {
            Some(r) => rest.push(r),
            None => rest,
        }
    }
}

/// Views of a vector of strings.
pub open spec fn string_views(v: Seq<String>) -> Seq<Seq<char>> {
    v.map_values(|s: String| s@)
}

/// Reads all role names that have a `.key` file among the keystore's
/// file names.
pub fn list_roles(names: &Vec<String>) -> (roles: Vec<String>)
    ensures
        string_views(roles@) == roles_of(string_views(names@)),
{
    let mut roles: Vec<String> = Vec::new();
    let mut i: usize = 0;
    while i < names.len()
        invariant
            i <= names@.len(),
            string_views(roles@) == roles_of(string_views(names@).take(i as int)),
        decreases names@.len() - i,
    {
        let ghost before = string_views(names@).take(i as int);
        assert(string_views(names@).take(i + 1).drop_last() =~= before);
        assert(string_views(names@).take(i + 1).last() == names@[i as int]@);
        match role_from_file_name(names[i].as_str()) {
            Some(role) => {
                roles.push(role);
                assert(string_views(roles@) =~= roles_of(before).push(role@));
            },
            None => {},
        }
        i = i + 1;
    }
    assert(string_views(names@).take(names@.len() as int) =~= string_views(names@));
    roles
}

/// One line of `ligate keys list`: the role padded to 20 characters, a
/// space, then its address (`<missing>` when the address file is unreadable).
pub open spec fn list_line_spec(role: Seq<char>, address: Option<Seq<char>>) -> Seq<char> {
    let shown = match address {
        Some(a) => a,
        None => seq!['<', 'm', 'i', 's', 's', 'i', 'n', 'g', '>'],
    };
    pad_right_spec(role, 20) + seq![' '] + shown
}

/// Formats one line of `ligate keys list`.
pub fn list_line(role: &str, address: Option<&str>) -> (r: String)
    ensures
        r@ == list_line_spec(role@, match address {
            Some(a) => Some(a@),
            None => None,
        }),
        r@.take(role@.len() as int) == role@,
        match address {
            Some(a) => r@.skip(r@.len() - a@.len()) == a@ && r@.len() == list_column(role@) + 1
                + a@.len(),
            None => r@.len() == list_column(role@) + 10,
        },
{
    let missing = "<missing>";
    let sep = " ";
    proof {
        reveal_strlit("<missing>");
        reveal_strlit(" ");
    }
    assert(missing@ =~= seq!['<', 'm', 'i', 's', 's', 'i', 'n', 'g', '>']);
    assert(sep@ =~= seq![' ']);
    let shown = match address {
        Some(a) => a,
        None => missing,
    };
    let padded = pad_right_20(role);
    let head = concat(padded.as_str(), sep);
    let r = concat(head.as_str(), shown);
    proof {
        law_list_line_layout(role@, shown@);
    }
    r
}

/// Where the address column of `ligate keys list` starts, less the
/// separating space: the role's length, or 20 for a shorter role.
pub open spec fn list_column(role: Seq<char>) -> int {
    if role.len() >= 20 {
        role.len() as int
    } else {
        20
    }
}

/// A listed line shows the role, blanks up to column 20, one space and then
/// the address exactly as read back from its file, whatever its length.
pub proof fn law_list_line_layout(role: Seq<char>, address: Seq<char>)
    ensures
        ({
            let line = list_line_spec(role, Some(address));
            let w = list_column(role);
            &&& line.len() == w + 1 + address.len()
            &&& line.take(role.len() as int) == role
            &&& forall|i: int| role.len() <= i <= w ==> line[i] == ' '
            &&& line.skip(w + 1) == address
            &&& line.skip(line.len() - address.len()) == address
        }),
{
    let line = list_line_spec(role, Some(address));
    let w = list_column(role);
    let padded = pad_right_spec(role, 20);
    assert(padded.len() == w);
    assert(line =~= padded + seq![' '] + address);
    assert(line.take(role.len() as int) =~= role);
    assert(line.skip(w + 1) =~= address);
    assert forall|i: int| role.len() <= i <= w implies line[i] == ' ' by {
        if i < w {
            assert(line[i] == padded[i]);
        }
    }
}

/// `s` is in ascending lexicographic order.
pub open spec fn sorted_lex(s: Seq<Seq<char>>) -> bool {
    forall|i: int, j: int| 0 <= i < j < s.len() ==> lex_le(#[trigger] s[i], #[trigger] s[j])
}

/// Sorts role names in ascending `String` order (what `Vec::sort` yields).
pub fn sort_roles(roles: Vec<String>) -> (r: Vec<String>)
    ensures
        sorted_lex(string_views(r@)),
        string_views(r@).to_multiset() == string_views(roles@).to_multiset(),
{
    broadcast use vstd::seq_lib::group_to_multiset_ensures;
    broadcast use vstd::multiset::group_multiset_axioms;

    let mut out: Vec<String> = Vec::new();
    let mut i: usize = 0;
    while i < roles.len()
        invariant
            i <= roles@.len(),
            sorted_lex(string_views(out@)),
            string_views(out@).to_multiset() == string_views(roles@).take(i as int).to_multiset(),
        decreases roles@.len() - i,
    {
        let x = roles[i].clone();
        let ghost sv = string_views(out@);
        let mut p: usize = 0;
        while p < out.len()
            invariant
                sv == string_views(out@),
                sorted_lex(sv),
                p <= sv.len(),
                forall|q: int| 0 <= q < p ==> lex_le(#[trigger] sv[q], x@),
            ensures
                sv == string_views(out@),
                p <= sv.len(),
                forall|q: int| 0 <= q < p ==> lex_le(#[trigger] sv[q], x@),
                p == sv.len() || !lex_le(sv[p as int], x@),
            decreases sv.len() - p,
        {
            if !str_lex_le(out[p].as_str(), x.as_str()) {
                break;
            }
            p = p + 1;
        }
        proof {
            if p < sv.len() {
                assert(!lex_le(sv[p as int], x@));
                lemma_lex_total(sv[p as int], x@);
                assert forall|q: int| p <= q < sv.len() implies lex_le(x@, #[trigger] sv[q]) by {
                    if q > p {
                        lemma_lex_le_transitive(x@, sv[p as int], sv[q]);
                    }
                }
            }
        }
        out.insert(p, x);
        let ghost nv = string_views(out@);
        proof {
            assert(nv =~= sv.insert(p as int, x@));
            assert forall|a: int, b: int| 0 <= a < b < nv.len() implies lex_le(
                #[trigger] nv[a],
                #[trigger] nv[b],
            ) by {
                if b < p {
                } else if a < p && b == p {
                } else if a < p && b > p {
                    lemma_lex_le_transitive(sv[a], x@, sv[b - 1]);
                } else if a == p {
                } else {
                }
            }
            assert(nv.remove(p as int) =~= sv);
            assert(nv[p as int] == x@);
            assert(nv.to_multiset() =~= sv.to_multiset().insert(x@)) by {
                nv.to_multiset_ensures();
                assert(nv.remove(p as int).to_multiset() == nv.to_multiset().remove(nv[p as int]));
                assert(nv.contains(x@)) by {
                    assert(0 <= p < nv.len() && nv[p as int] == x@);
                }
                nv.to_multiset_ensures();
                assert(nv.to_multiset().count(x@) > 0);
                assert(sv.to_multiset() == nv.to_multiset().remove(x@));
            }
            let tk = string_views(roles@).take(i as int + 1);
            assert(tk =~= string_views(roles@).take(i as int).push(x@));
            string_views(roles@).take(i as int).to_multiset_ensures();
            assert(tk.to_multiset() =~= string_views(roles@).take(i as int).to_multiset().insert(x@));
        }
        i = i + 1;
    }
    assert(string_views(roles@).take(roles@.len() as int) =~= string_views(roles@));
    out
}

/// A generated key reads back: the key file written for a 32-byte seed
/// passes `read_key_hex` as the seed's 64 hex digits, which decode (bare,
/// or with `0x` as `--private-key-hex` accepts) to the seed itself.
pub proof fn law_key_file_roundtrip(seed: Seq<u8>)
    requires
        seed.len() == 32,
    ensures
        read_key_hex_spec(file_line(hex_lower(seed))) == Ok::<Seq<char>, KeyFileFault>(hex_lower(seed)),
        hex_decoded(hex_lower(seed)) == Some(seed),
        hex_decoded(strip_0x_spec(hex_lower(seed))) == Some(seed),
        hex_decoded(strip_0x_spec(seq!['0', 'x'] + hex_lower(seed))) == Some(seed),
{
    let h = hex_lower(seed);
    lemma_hex_lower_digits(seed);
    lemma_hex_roundtrip(seed);
    assert(file_line(h).drop_last() =~= h);
    assert(h.last() != '\n') by {
        assert(crate::encoding::is_hex_digit(h[h.len() - 1]));
    }
    lemma_trim_end_noop(h, '\n');
    vstd::utf8::is_ascii_chars_encode_utf8(h);
    assert(h[1] != 'x' && h[1] != 'X') by {
        assert(crate::encoding::is_hex_digit(h[1]));
    }
    let p = seq!['0', 'x'] + h;
    assert(p.subrange(2, p.len() as int) =~= h);
}

/// An address file reads back as the address written to it.
pub proof fn law_address_file_roundtrip(address: Seq<char>)
    requires
        address.len() == 0 || address.last() != '\n',
    ensures
        trim_end_spec(file_line(address), '\n') == address,
{
    assert(file_line(address).drop_last() =~= address);
    lemma_trim_end_noop(address, '\n');
}

/// Listing finds the role a key file was written for, and never takes an
/// address file for a key.
pub proof fn law_key_file_name_lists_role(role: Seq<char>)
    requires
        role.len() > 0,
    ensures
        role_of_file_name(role + seq!['.', 'k', 'e', 'y']) == Some(role),
        role_of_file_name(role + seq!['.', 'a', 'd', 'd', 'r', 'e', 's', 's']) is None,
{
    let k = role + seq!['.', 'k', 'e', 'y'];
    assert(k.subrange(k.len() - 4, k.len() as int) =~= seq!['.', 'k', 'e', 'y']);
    assert(k.take(k.len() - 4) =~= role);
    let a = role + seq!['.', 'a', 'd', 'd', 'r', 'e', 's', 's'];
    assert(a.last() == 's');
    if has_suffix(a, seq!['.', 'k', 'e', 'y']) {
        assert(a.subrange(a.len() - 4, a.len() as int)[3] == a.last());
    }
}

/// Two file names that stand for the same role are the same name.
proof fn lemma_role_of_file_name_injective(a: Seq<char>, b: Seq<char>)
    requires
        role_of_file_name(a) is Some,
        role_of_file_name(a) == role_of_file_name(b),
    ensures
        a == b,
{
    let r = role_of_file_name(a)->0;
    let ext = seq!['.', 'k', 'e', 'y'];
    assert(a =~= a.take(a.len() - 4) + a.subrange(a.len() - 4, a.len() as int));
    assert(b =~= b.take(b.len() - 4) + b.subrange(b.len() - 4, b.len() as int));
    assert(a =~= r + ext);
    assert(b =~= r + ext);
}

/// Listing a directory's entries finds each key file's role exactly once:
/// when the entry names are distinct, the roles are distinct, and a role is
/// listed iff some entry is `<role>.key`.
pub proof fn law_list_roles_once_each(names: Seq<Seq<char>>)
    requires
        names.no_duplicates(),
    ensures
        roles_of(names).no_duplicates(),
        forall|r: Seq<char>|
            roles_of(names).contains(r) <==> exists|i: int|
                0 <= i < names.len() && role_of_file_name(#[trigger] names[i]) == Some(r),
    decreases names.len(),
{
    if names.len() > 0 {
        let prev = names.drop_last();
        let x = names.last();
        assert(prev.no_duplicates()) by {
            assert forall|i: int, j: int| 0 <= i < prev.len() && 0 <= j < prev.len() && i != j
                implies prev[i] != prev[j] by {
                assert(prev[i] == names[i] && prev[j] == names[j]);
            }
        }
        law_list_roles_once_each(prev);
        let rest = roles_of(prev);
        assert forall|r: Seq<char>|
            roles_of(names).contains(r) <==> exists|i: int|
                0 <= i < names.len() && role_of_file_name(#[trigger] names[i]) == Some(r) by {
            if roles_of(names).contains(r) {
                if rest.contains(r) {
                    let i = choose|i: int| 0 <= i < prev.len() && role_of_file_name(#[trigger] prev[i]) == Some(r);
                    assert(names[i] == prev[i]);
                } else {
                    let k = choose|k: int| 0 <= k < roles_of(names).len() && roles_of(names)[k] == r;
                    assert(role_of_file_name(x) is Some);
                    assert(roles_of(names) == rest.push(role_of_file_name(x)->0));
                    assert(k == rest.len());
                    assert(names[names.len() - 1] == x);
                }
            }
            if exists|i: int| 0 <= i < names.len() && role_of_file_name(#[trigger] names[i]) == Some(r) {
                let i = choose|i: int| 0 <= i < names.len() && role_of_file_name(#[trigger] names[i]) == Some(r);
                if i < names.len() - 1 {
                    assert(prev[i] == names[i]);
                    assert(rest.contains(r));
                    let k = choose|k: int| 0 <= k < rest.len() && rest[k] == r;
                    match role_of_file_name(x) {
                        Some(rx) => {
                            assert(roles_of(names) == rest.push(rx));
                            assert(roles_of(names)[k] == r);
                        },
                        None => {},
                    }
                } else {
                    assert(roles_of(names) == rest.push(r));
                    assert(roles_of(names)[rest.len() as int] == r);
                }
            }
        }
        match role_of_file_name(x) {
            Some(rx) => {
                assert(!rest.contains(rx)) by {
                    if rest.contains(rx) {
                        let i = choose|i: int| 0 <= i < prev.len() && role_of_file_name(#[trigger] prev[i]) == Some(rx);
                        lemma_role_of_file_name_injective(prev[i], x);
                        assert(names[i] == names[names.len() - 1]);
                    }
                }
                let all = rest.push(rx);
                assert(roles_of(names) == all);
                assert forall|i: int, j: int| 0 <= i < all.len() && 0 <= j < all.len() && i != j
                    implies all[i] != all[j] by {
                    if i == rest.len() as int {
                        assert(rest[j] == all[j]);
                    } else if j == rest.len() as int {
                        assert(rest[i] == all[i]);
                    } else {
                        assert(rest[i] == all[i] && rest[j] == all[j]);
                    }
                }
            },
            None => {},
        }
    }
}

} // verus!
