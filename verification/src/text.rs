//! Character-level string helpers with exact specifications.

use vstd::prelude::*;

verus! {

/// `s` with every trailing occurrence of `c` removed
/// (what `str::trim_end_matches(c)` returns for a single char).
pub open spec fn trim_end_spec(s: Seq<char>, c: char) -> Seq<char>
    decreases s.len(),
{
    if s.len() > 0 && s.last() == c {
        trim_end_spec(s.drop_last(), c)
    } else {
        s
    }
}

/// `prefix` is a prefix of `s`.
pub open spec fn has_prefix(s: Seq<char>, prefix: Seq<char>) -> bool {
    prefix.len() <= s.len() && s.subrange(0, prefix.len() as int) == prefix
}

/// `suffix` is a suffix of `s`.
pub open spec fn has_suffix(s: Seq<char>, suffix: Seq<char>) -> bool {
    suffix.len() <= s.len() && s.subrange(s.len() - suffix.len(), s.len() as int) == suffix
}

proof fn lemma_trim_end_take(s: Seq<char>, c: char, k: int)
    requires
        0 < k <= s.len(),
        s[k - 1] == c,
    ensures
        trim_end_spec(s.take(k), c) == trim_end_spec(s.take(k - 1), c),
{
    assert(s.take(k).drop_last() =~= s.take(k - 1));
}

/// Removes every trailing `c` from `s`.
pub fn trim_end_char(s: &str, c: char) -> (r: &str)
    ensures
        r@ == trim_end_spec(s@, c),
{
    let n = s.unicode_len();
    let mut k: usize = n;
    assert(s@.take(n as int) =~= s@);
    loop
        invariant
            n == s@.len(),
            k <= n,
            trim_end_spec(s@, c) == trim_end_spec(s@.take(k as int), c),
        ensures
            k <= n,
            trim_end_spec(s@, c) == trim_end_spec(s@.take(k as int), c),
            k == 0 || s@[k - 1] != c,
        decreases k,
    {
        if k == 0 {
            break;
        }
        let last = s.get_char(k - 1);
        if last != c {
            break;
        }
        proof {
            lemma_trim_end_take(s@, c, k as int);
        }
        k = k - 1;
    }
    assert(trim_end_spec(s@.take(k as int), c) == s@.take(k as int)) by {
        if k > 0 {
            assert(s@.take(k as int).last() == s@[k - 1]);
        }
    }
    s.substring_char(0, k)
}

/// Whether `s` starts with `prefix`.
pub fn starts_with(s: &str, prefix: &str) -> (r: bool)
    ensures
        r == has_prefix(s@, prefix@),
{
    let n = s.unicode_len();
    let m = prefix.unicode_len();
    if m > n {
        return false;
    }
    let mut i: usize = 0;
    while i < m
        invariant
            n == s@.len(),
            m == prefix@.len(),
            m <= n,
            i <= m,
            forall|j: int| 0 <= j < i ==> s@[j] == prefix@[j],
        decreases m - i,
    {
        if s.get_char(i) != prefix.get_char(i) {
            assert(s@.subrange(0, m as int)[i as int] != prefix@[i as int]);
            return false;
        }
        i = i + 1;
    }
    assert(s@.subrange(0, m as int) =~= prefix@);
    true
}

/// Whether `s` ends with `suffix`.
pub fn ends_with(s: &str, suffix: &str) -> (r: bool)
    ensures
        r == has_suffix(s@, suffix@),
{
    let n = s.unicode_len();
    let m = suffix.unicode_len();
    if m > n {
        return false;
    }
    let base = n - m;
    let mut i: usize = 0;
    while i < m
        invariant
            n == s@.len(),
            m == suffix@.len(),
            m <= n,
            base == n - m,
            i <= m,
            forall|j: int| 0 <= j < i ==> s@[base + j] == suffix@[j],
        decreases m - i,
    {
        if s.get_char(base + i) != suffix.get_char(i) {
            assert(s@.subrange(base as int, n as int)[i as int] != suffix@[i as int]);
            return false;
        }
        i = i + 1;
    }
    assert(s@.subrange(base as int, n as int) =~= suffix@);
    true
}

/// The concatenation of `a` and `b` as a new `String`.
pub fn concat(a: &str, b: &str) -> (r: String)
    ensures
        r@ == a@ + b@,
{
    let mut r = a.to_owned();
    r.append(b);
    r
}

/// `s` starts with `0x` or `0X`.
pub open spec fn has_0x_prefix(s: Seq<char>) -> bool {
    s.len() >= 2 && s[0] == '0' && (s[1] == 'x' || s[1] == 'X')
}

/// `s` without a leading `0x` / `0X`, if it has one.
pub open spec fn strip_0x_spec(s: Seq<char>) -> Seq<char> {
    if has_0x_prefix(s) {
        s.subrange(2, s.len() as int)
    } else {
        s
    }
}

/// Removes one leading `0x` or `0X` from `s`.
pub fn strip_0x(s: &str) -> (r: &str)
    ensures
        r@ == strip_0x_spec(s@),
{
    let n = s.unicode_len();
    if n >= 2 && s.get_char(0) == '0' && (s.get_char(1) == 'x' || s.get_char(1) == 'X') {
        s.substring_char(2, n)
    } else {
        s
    }
}

/// `c` has the Unicode `White_Space` property (what `char::is_whitespace`
/// tests).
pub open spec fn is_unicode_whitespace(c: char) -> bool {
    let v = c as u32;
    (0x09 <= v && v <= 0x0d) || v == 0x20 || v == 0x85 || v == 0xa0 || v == 0x1680 || (0x2000 <= v
        && v <= 0x200a) || v == 0x2028 || v == 0x2029 || v == 0x202f || v == 0x205f || v == 0x3000
}

/// `s` is empty or whitespace only (`s.trim().is_empty()`).
pub open spec fn is_blank_spec(s: Seq<char>) -> bool {
    forall|i: int| 0 <= i < s.len() ==> is_unicode_whitespace(#[trigger] s[i])
}

/// A text is blank exactly when every character of it is whitespace: the
/// empty text is blank, a single character is blank iff it is whitespace,
/// and two texts joined are blank iff both are.
pub proof fn law_blank_iff_all_whitespace(s: Seq<char>, t: Seq<char>, c: char)
    ensures
        is_blank_spec(s) <==> (forall|i: int| 0 <= i < s.len() ==> is_unicode_whitespace(s[i])),
        (exists|i: int| 0 <= i < s.len() && !is_unicode_whitespace(s[i])) ==> !is_blank_spec(s),
        is_blank_spec(Seq::<char>::empty()),
        is_blank_spec(seq![c]) <==> is_unicode_whitespace(c),
        is_blank_spec(s + t) <==> (is_blank_spec(s) && is_blank_spec(t)),
{
    let st = s + t;
    if is_blank_spec(st) {
        assert forall|i: int| 0 <= i < s.len() implies is_unicode_whitespace(s[i]) by {
            assert(st[i] == s[i]);
        }
        assert forall|i: int| 0 <= i < t.len() implies is_unicode_whitespace(t[i]) by {
            assert(st[s.len() + i] == t[i]);
        }
    }
    if is_blank_spec(s) && is_blank_spec(t) {
        assert forall|i: int| 0 <= i < st.len() implies is_unicode_whitespace(st[i]) by {
            if i < s.len() {
                assert(st[i] == s[i]);
            } else {
                assert(st[i] == t[i - s.len()]);
            }
        }
    }
    if is_unicode_whitespace(c) {
        assert(seq![c][0] == c);
    } else {
        assert(seq![c][0] == c);
    }
}

/// Whether `c` has the Unicode `White_Space` property.
pub fn is_whitespace(c: char) -> (r: bool)
    ensures
        r == is_unicode_whitespace(c),
{
    let v = c as u32;
    (0x09 <= v && v <= 0x0d) || v == 0x20 || v == 0x85 || v == 0xa0 || v == 0x1680 || (0x2000 <= v
        && v <= 0x200a) || v == 0x2028 || v == 0x2029 || v == 0x202f || v == 0x205f || v == 0x3000
}

/// Whether `s` trims to the empty string.
pub fn is_blank(s: &str) -> (r: bool)
    ensures
        r == is_blank_spec(s@),
        r <==> (forall|i: int| 0 <= i < s@.len() ==> is_unicode_whitespace(#[trigger] s@[i])),
{
    let n = s.unicode_len();
    let mut i: usize = 0;
    while i < n
        invariant
            n == s@.len(),
            i <= n,
            forall|j: int| 0 <= j < i ==> is_unicode_whitespace(#[trigger] s@[j]),
        decreases n - i,
    {
        if !is_whitespace(s.get_char(i)) {
            return false;
        }
        i = i + 1;
    }
    true
}

/// `n` space characters.
pub open spec fn spaces(n: nat) -> Seq<char> {
    Seq::new(n, |i: int| ' ')
}

/// `s` followed by spaces up to `width` characters (what `{:width}` does to
/// a string).
pub open spec fn pad_right_spec(s: Seq<char>, width: nat) -> Seq<char> {
    if s.len() >= width {
        s
    } else {
        s + spaces((width - s.len()) as nat)
    }
}

/// Pads `s` with trailing spaces to at least 20 characters.
pub fn pad_right_20(s: &str) -> (r: String)
    ensures
        r@ == pad_right_spec(s@, 20),
{
    let blanks = "                    ";
    proof {
        reveal_strlit("                    ");
    }
    assert(blanks@ =~= spaces(20));
    let n = s.unicode_len();
    if n >= 20 {
        s.to_owned()
    } else {
        let fill = blanks.substring_char(0, 20 - n);
        assert(fill@ =~= spaces((20 - n) as nat));
        concat(s, fill)
    }
}

/// `a` and `b` agree on their first `k` characters.
pub open spec fn agree(a: Seq<char>, b: Seq<char>, k: int) -> bool {
    0 <= k <= a.len() && k <= b.len() && forall|j: int| 0 <= j < k ==> a[j] == b[j]
}

/// `a` sorts strictly before `b` in lexicographic code-point order (the
/// order of `String`'s `Ord`, which compares UTF-8 bytes): at the first
/// difference `a` has the smaller character, or `a` is a proper prefix of `b`.
pub open spec fn lex_lt(a: Seq<char>, b: Seq<char>) -> bool {
    (exists|k: int| agree(a, b, k) && k < a.len() && k < b.len() && a[k] < b[k])
        || (agree(a, b, a.len() as int) && a.len() < b.len())
}

/// `a` sorts no later than `b`.
pub open spec fn lex_le(a: Seq<char>, b: Seq<char>) -> bool {
    a == b || lex_lt(a, b)
}

proof fn lemma_lex_total_from(a: Seq<char>, b: Seq<char>, i: int)
    requires
        agree(a, b, i),
    ensures
        lex_le(a, b) || lex_le(b, a),
    decreases a.len() - i,
{
    if i == a.len() {
        if i == b.len() {
            assert(a =~= b);
        }
    } else if i == b.len() {
        assert(agree(b, a, b.len() as int));
    } else if a[i] != b[i] {
        if a[i] < b[i] {
            assert(agree(a, b, i));
        } else {
            assert(agree(b, a, i));
        }
    } else {
        lemma_lex_total_from(a, b, i + 1);
    }
}

/// Any two strings are ordered one way or the other.
pub proof fn lemma_lex_total(a: Seq<char>, b: Seq<char>)
    ensures
        lex_le(a, b) || lex_le(b, a),
{
    lemma_lex_total_from(a, b, 0);
}

/// The strict order is transitive.
pub proof fn lemma_lex_lt_transitive(a: Seq<char>, b: Seq<char>, c: Seq<char>)
    requires
        lex_lt(a, b),
        lex_lt(b, c),
    ensures
        lex_lt(a, c),
{
    let wa = exists|k: int| agree(a, b, k) && k < a.len() && k < b.len() && a[k] < b[k];
    let wb = exists|k: int| agree(b, c, k) && k < b.len() && k < c.len() && b[k] < c[k];
    if wa {
        let k1 = choose|k: int| agree(a, b, k) && k < a.len() && k < b.len() && a[k] < b[k];
        if wb {
            let k2 = choose|k: int| agree(b, c, k) && k < b.len() && k < c.len() && b[k] < c[k];
            if k1 <= k2 {
                assert(agree(a, c, k1));
            } else {
                assert(agree(a, c, k2));
            }
        } else {
            assert(agree(a, c, k1));
        }
    } else {
        if wb {
            let k2 = choose|k: int| agree(b, c, k) && k < b.len() && k < c.len() && b[k] < c[k];
            if k2 < a.len() {
                assert(agree(a, c, k2));
            } else {
                assert(agree(a, c, a.len() as int));
            }
        } else {
            assert(agree(a, c, a.len() as int));
        }
    }
}

/// The order is transitive.
pub proof fn lemma_lex_le_transitive(a: Seq<char>, b: Seq<char>, c: Seq<char>)
    requires
        lex_le(a, b),
        lex_le(b, c),
    ensures
        lex_le(a, c),
{
    if a != b && b != c {
        lemma_lex_lt_transitive(a, b, c);
    }
}

/// Whether `a` sorts no later than `b`.
pub fn str_lex_le(a: &str, b: &str) -> (r: bool)
    ensures
        r == lex_le(a@, b@),
{
    let n = a.unicode_len();
    let m = b.unicode_len();
    let mut i: usize = 0;
    loop
        invariant
            n == a@.len(),
            m == b@.len(),
            agree(a@, b@, i as int),
        ensures
            agree(a@, b@, i as int),
            i == n || i == m || a@[i as int] != b@[i as int],
        decreases n - i,
    {
        if i == n || i == m {
            break;
        }
        if a.get_char(i) != b.get_char(i) {
            break;
        }
        i = i + 1;
    }
    if i == n {
        if i == m {
            assert(a@ =~= b@);
        }
        return true;
    }
    if i == m {
        proof {
            assert(a@ != b@);
            assert forall|k: int| agree(a@, b@, k) && k < a@.len() && k < b@.len() implies !(a@[k] < b@[k]) by {}
        }
        return false;
    }
    let ca = a.get_char(i);
    let cb = b.get_char(i);
    if ca < cb {
        true
    } else {
        proof {
            assert(a@ != b@) by {
                assert(a@[i as int] != b@[i as int]);
            }
            assert forall|k: int| agree(a@, b@, k) && k < a@.len() && k < b@.len() implies !(a@[k] < b@[k]) by {
                if k > i {
                    assert(a@[i as int] == b@[i as int]);
                }
            }
            assert(!agree(a@, b@, a@.len() as int)) by {
                assert(a@[i as int] != b@[i as int]);
            }
        }
        false
    }
}

/// After trimming, `s` no longer ends with `c`.
pub proof fn lemma_trim_end_no_trailing(s: Seq<char>, c: char)
    ensures
        trim_end_spec(s, c).len() == 0 || trim_end_spec(s, c).last() != c,
        trim_end_spec(s, c).len() <= s.len(),
    decreases s.len(),
{
    if s.len() > 0 && s.last() == c {
        lemma_trim_end_no_trailing(s.drop_last(), c);
    }
}

/// Trimming a string that does not end with `c` leaves it unchanged.
pub proof fn lemma_trim_end_noop(s: Seq<char>, c: char)
    requires
        s.len() == 0 || s.last() != c,
    ensures
        trim_end_spec(s, c) == s,
{
}

/// The decimal digit character for `d` in `0..10`.
pub open spec fn decimal_digit(d: nat) -> char {
    if d == 0 { '0' } else if d == 1 { '1' } else if d == 2 { '2' } else if d == 3 { '3' }
    else if d == 4 { '4' } else if d == 5 { '5' } else if d == 6 { '6' } else if d == 7 { '7' }
    else if d == 8 { '8' } else { '9' }
}

/// Decimal notation of `n`, without leading zeros (what `{}` prints).
pub open spec fn decimal(n: nat) -> Seq<char>
    decreases n,
{
    if n < 10 {
        seq![decimal_digit(n)]
    } else {
        decimal(n / 10).push(decimal_digit(n % 10))
    }
}

/// Decimal notation of `n`.
pub fn u64_to_decimal(n: u64) -> (r: String)
    ensures
        r@ == decimal(n as nat),
{
    let digits = "0123456789";
    proof {
        reveal_strlit("0123456789");
    }
    assert(forall|d: int| 0 <= d < 10 ==> #[trigger] digits@[d] == decimal_digit(d as nat));
    if n == 0 {
        let zero = digits.substring_char(0, 1);
        assert(zero@ =~= decimal(0));
        return zero.to_owned();
    }
    let mut m: u64 = n;
    let mut acc = String::new();
    while m > 0
        invariant
            digits@.len() == 10,
            forall|d: int| 0 <= d < 10 ==> #[trigger] digits@[d] == decimal_digit(d as nat),
            n > 0,
            m == 0 ==> decimal(n as nat) == acc@,
            m > 0 ==> decimal(n as nat) == decimal(m as nat) + acc@,
        decreases m,
    {
        let d = (m % 10) as usize;
        let digit = digits.substring_char(d, d + 1);
        assert(digit@ =~= seq![decimal_digit(d as nat)]);
        let next = concat(digit, acc.as_str());
        proof {
            if m < 10 {
                assert(decimal(m as nat) == seq![decimal_digit(m as nat)]);
                assert(m % 10 == m);
                assert(next@ =~= seq![decimal_digit(m as nat)] + acc@);
            } else {
                assert(decimal(m as nat) == decimal((m / 10) as nat).push(decimal_digit((m % 10) as nat)));
                assert(decimal((m / 10) as nat).push(decimal_digit((m % 10) as nat)) + acc@ =~= decimal((m / 10) as nat) + next@);
            }
        }
        acc = next;
        m = m / 10;
    }
    acc
}

} // verus!
