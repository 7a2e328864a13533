//! Character-level text primitives shared by the parsers.
//!
//! Every scanner in this crate works on the characters of its input, so the
//! searches below are stated over `Seq<char>` and proved against their
//! executable counterparts once, here.

use vstd::prelude::*;

verus! {

// ---------------------------------------------------------------------------
// Specifications
// ---------------------------------------------------------------------------

/// `pat` occurs in `s` starting at index `i`.
pub open spec fn matches_at(s: Seq<char>, pat: Seq<char>, i: int) -> bool {
    &&& 0 <= i
    &&& i + pat.len() <= s.len()
    &&& s.subrange(i, i + pat.len()) == pat
}

/// The first index at or after `i` where `pat` occurs in `s`.
pub open spec fn find_from(s: Seq<char>, pat: Seq<char>, i: int) -> Option<int>
    decreases s.len() + 1 - i,
{
    if i < 0 || i + pat.len() > s.len() {
        None
    } else if matches_at(s, pat, i) {
        Some(i)
    } else {
        find_from(s, pat, i + 1)
    }
}

/// The first index where `pat` occurs in `s`.
pub open spec fn find(s: Seq<char>, pat: Seq<char>) -> Option<int> {
    find_from(s, pat, 0)
}

/// Whether `pat` occurs anywhere in `s`.
pub open spec fn contains(s: Seq<char>, pat: Seq<char>) -> bool {
    find(s, pat) is Some
}

/// Whether `s` begins with `pat`.
pub open spec fn starts_with(s: Seq<char>, pat: Seq<char>) -> bool {
    matches_at(s, pat, 0)
}

/// Whether `s` ends with `pat`.
pub open spec fn ends_with(s: Seq<char>, pat: Seq<char>) -> bool {
    pat.len() <= s.len() && s.subrange(s.len() - pat.len(), s.len() as int) == pat
}

/// The last index of the character `c` in `s`.
pub open spec fn rfind_char(s: Seq<char>, c: char) -> Option<int>
    decreases s.len(),
{
    if s.len() == 0 {
        None
    } else if s.last() == c {
        Some(s.len() - 1)
    } else {
        rfind_char(s.drop_last(), c)
    }
}

/// The first index at or after `i` whose character satisfies `stop`, or the
/// length of `s` when there is none.
pub open spec fn scan_until(s: Seq<char>, i: int, stop: spec_fn(char) -> bool) -> int
    decreases s.len() - i,
{
    if i < 0 || i >= s.len() {
        s.len() as int
    } else if stop(s[i]) {
        i
    } else {
        scan_until(s, i + 1, stop)
    }
}

/// Unicode `White_Space`, as `char::is_whitespace` defines it.
pub open spec fn is_ws(c: char) -> bool {
    ||| '\t' <= c <= '\r'
    ||| c == ' '
    ||| c == '\u{85}'
    ||| c == '\u{a0}'
    ||| c == '\u{1680}'
    ||| '\u{2000}' <= c <= '\u{200a}'
    ||| c == '\u{2028}'
    ||| c == '\u{2029}'
    ||| c == '\u{202f}'
    ||| c == '\u{205f}'
    ||| c == '\u{3000}'
}

/// Number of leading whitespace characters.
pub open spec fn ws_prefix_len(s: Seq<char>) -> nat
    decreases s.len(),
{
    if s.len() > 0 && is_ws(s[0]) {
        1 + ws_prefix_len(s.drop_first())
    } else {
        0
    }
}

/// Number of trailing whitespace characters.
pub open spec fn ws_suffix_len(s: Seq<char>) -> nat
    decreases s.len(),
{
    if s.len() > 0 && is_ws(s.last()) {
        1 + ws_suffix_len(s.drop_last())
    } else {
        0
    }
}

/// `str::trim_start`.
pub open spec fn trim_start(s: Seq<char>) -> Seq<char> {
    s.skip(ws_prefix_len(s) as int)
}

/// `str::trim_end`.
pub open spec fn trim_end(s: Seq<char>) -> Seq<char> {
    s.take(s.len() - ws_suffix_len(s))
}

/// `str::trim`.
pub open spec fn trim(s: Seq<char>) -> Seq<char> {
    trim_end(trim_start(s))
}

/// `char::to_ascii_lowercase`.
pub open spec fn lower_char(c: char) -> char {
    if 'A' <= c <= 'Z' {
        ((c as u32) + 32) as char
    } else {
        c
    }
}

/// `str::to_ascii_lowercase`.
pub open spec fn lower(s: Seq<char>) -> Seq<char> {
    s.map_values(|c: char| lower_char(c))
}

/// The part of `s` before the first `sep`, or all of `s` (`split(sep).next()`).
pub open spec fn before_first(s: Seq<char>, sep: char) -> Seq<char> {
    match find(s, seq![sep]) {
        Some(i) => s.take(i),
        None => s,
    }
}

/// `str::split_once` with a one-character separator.
pub open spec fn split_once(s: Seq<char>, sep: char) -> Option<(Seq<char>, Seq<char>)> {
    match find(s, seq![sep]) {
        Some(i) => Some((s.take(i), s.skip(i + 1))),
        None => None,
    }
}

/// `char::is_ascii_digit`.
pub open spec fn is_digit(c: char) -> bool {
    '0' <= c <= '9'
}

/// `char::is_ascii_hexdigit`.
pub open spec fn is_hex_digit(c: char) -> bool {
    ||| '0' <= c <= '9'
    ||| 'a' <= c <= 'f'
    ||| 'A' <= c <= 'F'
}

/// Value of a string of decimal digits.
pub open spec fn decimal_value(s: Seq<char>) -> nat
    decreases s.len(),
{
    if s.len() == 0 {
        0
    } else {
        decimal_value(s.drop_last()) * 10 + ((s.last() as u32) - ('0' as u32)) as nat
    }
}

/// Whether every character is a decimal digit.
pub open spec fn all_digits(s: Seq<char>) -> bool {
    forall|i: int| 0 <= i < s.len() ==> is_digit(#[trigger] s[i])
}

/// Decimal digits of a natural number, most significant first.
pub open spec fn nat_digits(n: nat) -> Seq<char>
    decreases n,
{
    if n < 10 {
        seq![(('0' as u32) + n) as char]
    } else {
        nat_digits(n / 10).push((('0' as u32) + (n % 10)) as char)
    }
}

/// `i64::to_string`.
pub open spec fn int_text(n: int) -> Seq<char> {
    if n < 0 {
        seq!['-'] + nat_digits((-n) as nat)
    } else {
        nat_digits(n as nat)
    }
}

/// UTF-8 length of one character.
pub open spec fn utf8_width(c: char) -> nat {
    if (c as u32) < 0x80 {
        1
    } else if (c as u32) < 0x800 {
        2
    } else if (c as u32) < 0x10000 {
        3
    } else {
        4
    }
}

/// `str::len`: the UTF-8 length in bytes.
pub open spec fn utf8_len(s: Seq<char>) -> nat
    decreases s.len(),
{
    if s.len() == 0 {
        0
    } else {
        utf8_len(s.drop_last()) + utf8_width(s.last())
    }
}

// ---------------------------------------------------------------------------
// Lemmas
// ---------------------------------------------------------------------------

/// Skipping positions where the pattern does not occur does not change the
/// first occurrence.
pub proof fn lemma_find_skip(s: Seq<char>, pat: Seq<char>, i: int, j: int)
    requires
        0 <= i <= j,
        forall|k: int| i <= k < j ==> !matches_at(s, pat, k),
    ensures
        find_from(s, pat, i) == find_from(s, pat, j),
    decreases j - i,
{
    if i < j {
        lemma_find_skip(s, pat, i + 1, j);
    }
}

/// A text that occurs at some position is contained.
pub proof fn lemma_occurrence_contained(s: Seq<char>, pat: Seq<char>, i: int)
    requires
        matches_at(s, pat, i),
    ensures
        contains(s, pat),
{
    lemma_find_from_props(s, pat, 0);
}

/// The first occurrence is the one at `i` when none starts earlier.
pub proof fn lemma_first_occurrence(s: Seq<char>, pat: Seq<char>, i: int)
    requires
        matches_at(s, pat, i),
        forall|m: int| 0 <= m < i ==> !matches_at(s, pat, m),
    ensures
        find(s, pat) == Some(i),
{
    lemma_find_skip(s, pat, 0, i);
}

/// A text that occurs nowhere is not found.
pub proof fn lemma_no_occurrence(s: Seq<char>, pat: Seq<char>)
    requires
        forall|m: int| !matches_at(s, pat, m),
    ensures
        find(s, pat) is None,
{
    lemma_find_from_props(s, pat, 0);
}

/// A result of `find_from` is an occurrence, and no earlier one exists.
pub proof fn lemma_find_from_props(s: Seq<char>, pat: Seq<char>, i: int)
    requires
        0 <= i,
    ensures
        find_from(s, pat, i) matches Some(k) ==> i <= k && matches_at(s, pat, k)
            && forall|m: int| i <= m < k ==> !matches_at(s, pat, m),
        find_from(s, pat, i) is None ==> forall|m: int|
            i <= m ==> !matches_at(s, pat, m),
    decreases s.len() + 1 - i,
{
    if i + pat.len() > s.len() {
    } else if matches_at(s, pat, i) {
    } else {
        lemma_find_from_props(s, pat, i + 1);
    }
}

/// Trimming leading whitespace: every skipped character is whitespace and the
/// first kept one is not.
pub proof fn lemma_ws_prefix(s: Seq<char>)
    ensures
        ws_prefix_len(s) <= s.len(),
        forall|i: int| 0 <= i < ws_prefix_len(s) ==> is_ws(#[trigger] s[i]),
        ws_prefix_len(s) < s.len() ==> !is_ws(s[ws_prefix_len(s) as int]),
    decreases s.len(),
{
    if s.len() > 0 && is_ws(s[0]) {
        lemma_ws_prefix(s.drop_first());
        assert forall|i: int| 0 <= i < ws_prefix_len(s) implies is_ws(#[trigger] s[i]) by {
            if i > 0 {
                assert(s[i] == s.drop_first()[i - 1]);
            }
        }
    }
}

/// The characterisation of `ws_prefix_len` is unique.
pub proof fn lemma_ws_prefix_unique(s: Seq<char>, n: int)
    requires
        0 <= n <= s.len(),
        forall|i: int| 0 <= i < n ==> is_ws(#[trigger] s[i]),
        n < s.len() ==> !is_ws(s[n]),
    ensures
        ws_prefix_len(s) == n,
    decreases s.len(),
{
    if n > 0 {
        assert(is_ws(s[0]));
        let t = s.drop_first();
        assert forall|i: int| 0 <= i < n - 1 implies is_ws(#[trigger] t[i]) by {
            assert(t[i] == s[i + 1]);
        }
        if n - 1 < t.len() {
            assert(t[n - 1] == s[n]);
        }
        lemma_ws_prefix_unique(t, n - 1);
    } else if s.len() > 0 {
        assert(!is_ws(s[0]));
    }
}

/// The characterisation of `ws_suffix_len` is unique.
pub proof fn lemma_ws_suffix_unique(s: Seq<char>, n: int)
    requires
        0 <= n <= s.len(),
        forall|i: int| s.len() - n <= i < s.len() ==> is_ws(#[trigger] s[i]),
        n < s.len() ==> !is_ws(s[s.len() - n - 1]),
    ensures
        ws_suffix_len(s) == n,
    decreases s.len(),
{
    if n > 0 {
        assert(is_ws(s[s.len() - 1]));
        let t = s.drop_last();
        assert forall|i: int| t.len() - (n - 1) <= i < t.len() implies is_ws(#[trigger] t[i]) by {
            assert(t[i] == s[i]);
        }
        if n - 1 < t.len() {
            assert(t[t.len() - (n - 1) - 1] == s[s.len() - n - 1]);
        }
        lemma_ws_suffix_unique(t, n - 1);
    } else if s.len() > 0 {
        assert(!is_ws(s[s.len() - 1]));
    }
}

/// The last occurrence of a character, characterised.
pub proof fn lemma_rfind_char_unique(s: Seq<char>, c: char, r: Option<int>)
    requires
        r matches Some(k) ==> 0 <= k < s.len() && s[k] == c && forall|m: int|
            k < m < s.len() ==> s[m] != c,
        r is None ==> forall|m: int| 0 <= m < s.len() ==> s[m] != c,
    ensures
        rfind_char(s, c) == r,
    decreases s.len(),
{
    if s.len() > 0 {
        if s.last() != c {
            let t = s.drop_last();
            assert forall|m: int| 0 <= m < t.len() && (r matches Some(k) ==> k < m) implies t[m]
                != c by {
                assert(t[m] == s[m]);
            }
            if let Some(k) = r {
                assert(k != s.len() - 1);
            }
            lemma_rfind_char_unique(t, c, r);
        }
    }
}

/// The characterisation of `scan_until` is unique.
pub proof fn lemma_scan_until_unique(s: Seq<char>, i: int, j: int, stop: spec_fn(char) -> bool)
    requires
        0 <= i <= j <= s.len(),
        forall|k: int| i <= k < j ==> !stop(#[trigger] s[k]),
        j < s.len() ==> stop(s[j]),
    ensures
        scan_until(s, i, stop) == j,
    decreases j - i,
{
    if i < j {
        lemma_scan_until_unique(s, i + 1, j, stop);
    }
}

/// `utf8_len` distributes over concatenation.
pub proof fn lemma_utf8_len_push(s: Seq<char>, c: char)
    ensures
        utf8_len(s.push(c)) == utf8_len(s) + utf8_width(c),
{
    assert(s.push(c).drop_last() == s);
}

// ---------------------------------------------------------------------------
// Executable counterparts
// ---------------------------------------------------------------------------

/// Copy the characters of `s` into a vector for indexed access.
pub fn chars_of(s: &str) -> (v: Vec<char>)
    ensures
        v@ == s@,
{
    let mut v: Vec<char> = Vec::new();
    for c in it: s.chars()
        invariant
            v@ == it.seq().take(it.index() as int),
    {
        v.push(c);
    }
    v
}

/// `String::push`.
#[verifier::external_body]
pub(crate) fn push_char(s: &mut String, c: char)
    ensures
        final(s)@ == old(s)@.push(c),
{
    s.push(c);
}

/// Build a string from a run of characters.
pub fn string_from(v: &[char], from: usize, to: usize) -> (r: String)
    requires
        from <= to <= v@.len(),
    ensures
        r@ == v@.subrange(from as int, to as int),
{
    let mut r = String::new();
    let mut i = from;
    while i < to
        invariant
            from <= i <= to <= v@.len(),
            r@ == v@.subrange(from as int, i as int),
        decreases to - i,
    {
        push_char(&mut r, v[i]);
        assert(v@.subrange(from as int, i + 1) == v@.subrange(from as int, i as int).push(v@[i as int]));
        i = i + 1;
    }
    r
}

/// Whether `pat` occurs in `s` at `i`.
pub fn matches_at_exec(s: &[char], pat: &[char], i: usize) -> (b: bool)
    ensures
        b == matches_at(s@, pat@, i as int),
{
    if i > s.len() || pat.len() > s.len() - i {
        return false;
    }
    let mut j: usize = 0;
    while j < pat.len()
        invariant
            i + pat@.len() <= s@.len(),
            s@.len() <= usize::MAX,
            j <= pat@.len(),
            forall|k: int| 0 <= k < j ==> s@[i + k] == pat@[k],
        decreases pat.len() - j,
    {
        if s[i + j] != pat[j] {
            assert(s@.subrange(i as int, i + pat@.len())[j as int] != pat@[j as int]);
            return false;
        }
        j = j + 1;
    }
    assert(s@.subrange(i as int, i + pat@.len()) =~= pat@);
    true
}

/// The first occurrence of `pat` in `s` at or after `from`.
pub fn find_from_exec(s: &[char], pat: &[char], from: usize) -> (r: Option<usize>)
    ensures
        r matches Some(k) ==> find_from(s@, pat@, from as int) == Some(k as int) && from <= k
            && k + pat@.len() <= s@.len() && matches_at(s@, pat@, k as int),
        r is None ==> find_from(s@, pat@, from as int) is None,
{
    proof {
        lemma_find_from_props(s@, pat@, from as int);
    }
    if from > s.len() {
        return None;
    }
    let mut i = from;
    while i < s.len()
        invariant
            from <= i <= s@.len(),
            find_from(s@, pat@, from as int) == find_from(s@, pat@, i as int),
        decreases s.len() - i,
    {
        if matches_at_exec(s, pat, i) {
            return Some(i);
        }
        proof {
            lemma_find_skip(s@, pat@, i as int, i + 1);
        }
        i = i + 1;
    }
    if matches_at_exec(s, pat, i) {
        Some(i)
    } else {
        assert(find_from(s@, pat@, i + 1) is None);
        None
    }
}

/// The first index at or after `from` holding `c`.
pub fn find_char_from(s: &[char], c: char, from: usize) -> (r: Option<usize>)
    ensures
        r matches Some(k) ==> find_from(s@, seq![c], from as int) == Some(k as int) && from <= k
            && k < s@.len() && s@[k as int] == c,
        r is None ==> find_from(s@, seq![c], from as int) is None,
{
    let pat = [c];
    assert(pat@ =~= seq![c]);
    let r = find_from_exec(s, &pat, from);
    if let Some(k) = r {
        assert(s@.subrange(k as int, k + 1)[0] == c);
    }
    r
}

/// The last index before `to` holding `c`.
pub fn rfind_char_exec(s: &[char], c: char, to: usize) -> (r: Option<usize>)
    requires
        to <= s@.len(),
    ensures
        r matches Some(k) ==> rfind_char(s@.take(to as int), c) == Some(k as int) && k < to
            && s@[k as int] == c,
        r is None ==> rfind_char(s@.take(to as int), c) is None,
{
    let ghost t = s@.take(to as int);
    let mut i = to;
    while i > 0
        invariant
            i <= to <= s@.len(),
            t == s@.take(to as int),
            forall|m: int| i <= m < t.len() ==> t[m] != c,
        decreases i,
    {
        if s[i - 1] == c {
            proof {
                lemma_rfind_char_unique(t, c, Some((i - 1) as int));
            }
            return Some(i - 1);
        }
        i = i - 1;
    }
    proof {
        lemma_rfind_char_unique(t, c, None);
    }
    None
}

/// `char::is_whitespace`.
pub fn is_ws_exec(c: char) -> (b: bool)
    ensures
        b == is_ws(c),
{
    ('\t' <= c && c <= '\r') || c == ' ' || c == '\u{85}' || c == '\u{a0}' || c == '\u{1680}'
        || ('\u{2000}' <= c && c <= '\u{200a}') || c == '\u{2028}' || c == '\u{2029}' || c
        == '\u{202f}' || c == '\u{205f}' || c == '\u{3000}'
}

/// Index of the first non-whitespace character in `s[from..to]`.
pub fn skip_ws(s: &[char], from: usize, to: usize) -> (r: usize)
    requires
        from <= to <= s@.len(),
    ensures
        from <= r <= to,
        r - from == ws_prefix_len(s@.subrange(from as int, to as int)),
{
    let mut i = from;
    while i < to && is_ws_exec(s[i])
        invariant
            from <= i <= to <= s@.len(),
            forall|k: int| from <= k < i ==> is_ws(#[trigger] s@[k]),
        decreases to - i,
    {
        i = i + 1;
    }
    proof {
        let t = s@.subrange(from as int, to as int);
        assert forall|k: int| 0 <= k < i - from implies is_ws(#[trigger] t[k]) by {
            assert(t[k] == s@[from + k]);
        }
        if i < to {
            assert(t[i - from] == s@[i as int]);
        }
        lemma_ws_prefix_unique(t, i - from);
    }
    i
}

/// Index just past the last non-whitespace character in `s[from..to]`.
pub fn trim_ws_end(s: &[char], from: usize, to: usize) -> (r: usize)
    requires
        from <= to <= s@.len(),
    ensures
        from <= r <= to,
        to - r == ws_suffix_len(s@.subrange(from as int, to as int)),
{
    let mut i = to;
    while i > from && is_ws_exec(s[i - 1])
        invariant
            from <= i <= to <= s@.len(),
            forall|k: int| i <= k < to ==> is_ws(#[trigger] s@[k]),
        decreases i - from,
    {
        i = i - 1;
    }
    proof {
        let t = s@.subrange(from as int, to as int);
        assert forall|k: int| t.len() - (to - i) <= k < t.len() implies is_ws(#[trigger] t[k]) by {
            assert(t[k] == s@[from + k]);
        }
        if i > from {
            assert(t[t.len() - (to - i) - 1] == s@[i - 1]);
        }
        lemma_ws_suffix_unique(t, (to - i) as int);
    }
    i
}

/// `char::to_ascii_lowercase`.
pub fn lower_char_exec(c: char) -> (r: char)
    ensures
        r == lower_char(c),
{
    if 'A' <= c && c <= 'Z' {
        let b = (c as u8) + 32;
        b as char
    } else {
        c
    }
}

/// Lowercase every ASCII letter of `s`.
pub fn lower_chars(s: &[char]) -> (r: Vec<char>)
    ensures
        r@ == lower(s@),
{
    let mut r: Vec<char> = Vec::new();
    let mut i: usize = 0;
    while i < s.len()
        invariant
            i <= s@.len(),
            r@ =~= lower(s@.take(i as int)),
        decreases s.len() - i,
    {
        r.push(lower_char_exec(s[i]));
        i = i + 1;
        assert(lower(s@.take(i as int)) =~= lower(s@.take(i - 1)).push(lower_char(s@[i - 1])));
    }
    assert(s@.take(s@.len() as int) =~= s@);
    r
}


/// Bounds of `trim(s[from..to])` within `s`.
pub fn trim_range(s: &[char], from: usize, to: usize) -> (r: (usize, usize))
    requires
        from <= to <= s@.len(),
    ensures
        from <= r.0 <= r.1 <= to,
        s@.subrange(r.0 as int, r.1 as int) == trim(s@.subrange(from as int, to as int)),
{
    let a = skip_ws(s, from, to);
    let b = trim_ws_end(s, a, to);
    assert(trim_start(s@.subrange(from as int, to as int)) =~= s@.subrange(a as int, to as int));
    assert(trim_end(s@.subrange(a as int, to as int)) =~= s@.subrange(a as int, b as int));
    (a, b)
}

/// Whether `s[from..to]` spells exactly `lit`.
pub fn range_eq(s: &[char], from: usize, to: usize, lit: &[char]) -> (b: bool)
    requires
        from <= to <= s@.len(),
    ensures
        b == (s@.subrange(from as int, to as int) == lit@),
{
    if to - from != lit.len() {
        return false;
    }
    let mut i: usize = 0;
    while i < lit.len()
        invariant
            to - from == lit@.len(),
            from <= to <= s@.len(),
            i <= lit@.len(),
            forall|k: int| 0 <= k < i ==> s@[from + k] == lit@[k],
        decreases lit.len() - i,
    {
        if s[from + i] != lit[i] {
            assert(s@.subrange(from as int, to as int)[i as int] != lit@[i as int]);
            return false;
        }
        i = i + 1;
    }
    assert(s@.subrange(from as int, to as int) =~= lit@);
    true
}

/// Decimal text of a natural number.
pub fn nat_text_exec(n: u64) -> (r: String)
    ensures
        r@ == nat_digits(n as nat),
    decreases n,
{
    if n < 10 {
        let mut r = String::new();
        let c = ((n as u8) + 48) as char;
        push_char(&mut r, c);
        assert(r@ =~= seq![c]);
        r
    } else {
        let mut r = nat_text_exec(n / 10);
        let c = (((n % 10) as u8) + 48) as char;
        push_char(&mut r, c);
        r
    }
}

/// `i64::to_string`.
pub fn int_text_exec(n: i64) -> (r: String)
    ensures
        r@ == int_text(n as int),
{
    if n < 0 {
        let m: u64 = if n == i64::MIN {
            9223372036854775808u64
        } else {
            (-n) as u64
        };
        let mut r = String::new();
        push_char(&mut r, '-');
        let d = nat_text_exec(m);
        r.append(d.as_str());
        assert(r@ =~= seq!['-'] + nat_digits((-n) as nat));
        r
    } else {
        nat_text_exec(n as u64)
    }
}


/// A single character found by position, characterised.
pub proof fn lemma_find_char_unique(t: Seq<char>, c: char, r: Option<int>)
    requires
        r matches Some(k) ==> 0 <= k < t.len() && t[k] == c && forall|m: int|
            0 <= m < k ==> t[m] != c,
        r is None ==> forall|m: int| 0 <= m < t.len() ==> t[m] != c,
    ensures
        find(t, seq![c]) == r,
{
    let p = seq![c];
    assert forall|m: int| #[trigger] matches_at(t, p, m) <==> (0 <= m < t.len() && t[m] == c) by {
        if 0 <= m < t.len() {
            assert(t.subrange(m, m + 1)[0] == t[m]);
            if t[m] == c {
                assert(t.subrange(m, m + 1) =~= p);
            }
        }
    }
    match r {
        Some(k) => {
            lemma_find_skip(t, p, 0, k);
        },
        None => {
            lemma_find_skip(t, p, 0, t.len() as int);
        },
    }
}

/// The first index in `s[from..to]` holding `c`.
pub fn find_char_range(s: &[char], c: char, from: usize, to: usize) -> (r: Option<usize>)
    requires
        from <= to <= s@.len(),
    ensures
        r matches Some(k) ==> from <= k < to && s@[k as int] == c && find(
            s@.subrange(from as int, to as int),
            seq![c],
        ) == Some(k - from),
        r is None ==> find(s@.subrange(from as int, to as int), seq![c]) is None,
{
    let ghost t = s@.subrange(from as int, to as int);
    let mut i = from;
    while i < to
        invariant
            from <= i <= to <= s@.len(),
            t == s@.subrange(from as int, to as int),
            forall|m: int| from <= m < i ==> s@[m] != c,
        decreases to - i,
    {
        if s[i] == c {
            proof {
                assert forall|m: int| 0 <= m < i - from implies t[m] != c by {
                    assert(t[m] == s@[from + m]);
                }
                lemma_find_char_unique(t, c, Some(i - from));
            }
            return Some(i);
        }
        i = i + 1;
    }
    proof {
        assert forall|m: int| 0 <= m < t.len() implies t[m] != c by {
            assert(t[m] == s@[from + m]);
        }
        lemma_find_char_unique(t, c, None);
    }
    None
}


/// Whether `a[a0..a1]` and `b[b0..b1]` hold the same characters.
pub fn ranges_eq(a: &[char], a0: usize, a1: usize, b: &[char], b0: usize, b1: usize) -> (r: bool)
    requires
        a0 <= a1 <= a@.len(),
        b0 <= b1 <= b@.len(),
    ensures
        r == (a@.subrange(a0 as int, a1 as int) == b@.subrange(b0 as int, b1 as int)),
{
    if a1 - a0 != b1 - b0 {
        assert(a@.subrange(a0 as int, a1 as int).len() != b@.subrange(b0 as int, b1 as int).len());
        return false;
    }
    let mut i: usize = 0;
    while i < a1 - a0
        invariant
            a0 <= a1 <= a@.len(),
            b0 <= b1 <= b@.len(),
            a1 - a0 == b1 - b0,
            i <= a1 - a0,
            forall|k: int| 0 <= k < i ==> #[trigger] a@[a0 + k] == b@[b0 + k],
        decreases a1 - a0 - i,
    {
        if a[a0 + i] != b[b0 + i] {
            assert(a@.subrange(a0 as int, a1 as int)[i as int] != b@.subrange(b0 as int, b1 as int)[i as int]);
            return false;
        }
        i = i + 1;
    }
    assert forall|k: int| 0 <= k < a1 - a0 implies a@.subrange(a0 as int, a1 as int)[k]
        == b@.subrange(b0 as int, b1 as int)[k] by {
        assert(a@[a0 + k] == b@[b0 + k]);
    }
    assert(a@.subrange(a0 as int, a1 as int) =~= b@.subrange(b0 as int, b1 as int));
    true
}

/// `str`'s `Debug` rendering: the text in double quotes, escaped.
pub uninterp spec fn debug_quoted(s: Seq<char>) -> Seq<char>;

/// `<str as Debug>::fmt`, through `format!("{:?}", s)`.
///
/// Claims only that the result is the one `debug_quoted` names; the escaping
/// rules are not restated.
#[verifier::external_body]
pub(crate) fn quote_debug(s: &str) -> (r: String)
    ensures
        r@ == debug_quoted(s@),
{
    format!("{:?}", s)
}

/// Append the characters of a `&str`.
pub fn push_str(s: &mut String, t: &str)
    ensures
        final(s)@ == old(s)@ + t@,
{
    s.append(t);
}

/// `str::parse::<i64>`: an optional sign, then one or more decimal digits
/// whose signed value fits in an `i64`.
pub open spec fn parse_i64_spec(s: Seq<char>) -> Option<i64> {
    let signed = s.len() > 0 && (s[0] == '+' || s[0] == '-');
    let digits = if signed {
        s.drop_first()
    } else {
        s
    };
    let v: int = if s.len() > 0 && s[0] == '-' {
        -(decimal_value(digits) as int)
    } else {
        decimal_value(digits) as int
    };
    if digits.len() > 0 && all_digits(digits) && i64::MIN <= v <= i64::MAX {
        Some(v as i64)
    } else {
        None
    }
}

/// A number's digits only add value as the text grows.
pub proof fn lemma_decimal_value_prefix(s: Seq<char>, n: int)
    requires
        0 <= n <= s.len(),
        all_digits(s),
    ensures
        decimal_value(s.take(n)) <= decimal_value(s),
    decreases s.len() - n,
{
    if n < s.len() {
        lemma_decimal_value_prefix(s, n + 1);
        assert(s.take(n + 1).drop_last() =~= s.take(n));
    } else {
        assert(s.take(n) =~= s);
    }
}

/// `str::parse::<i64>`.
pub fn parse_i64(text: &str) -> (r: Option<i64>)
    ensures
        r == parse_i64_spec(text@),
{
    let s = chars_of(text);
    let n = s.len();
    let negative = n > 0 && s[0] == '-';
    let start: usize = if n > 0 && (s[0] == '+' || s[0] == '-') {
        1
    } else {
        0
    };
    let ghost digits = s@.skip(start as int);
    assert(digits =~= (if s@.len() > 0 && (s@[0] == '+' || s@[0] == '-') {
        s@.drop_first()
    } else {
        s@
    }));
    if start == n {
        return None;
    }
    let mut i = start;
    while i < n
        invariant
            start <= i <= n,
            n == s@.len(),
            s@ == text@,
            digits == (if s@.len() > 0 && (s@[0] == '+' || s@[0] == '-') {
                s@.drop_first()
            } else {
                s@
            }),
            digits == s@.skip(start as int),
            forall|k: int| start <= k < i ==> is_digit(#[trigger] s@[k]),
        decreases n - i,
    {
        if !('0' <= s[i] && s[i] <= '9') {
            assert(!is_digit(digits[i - start]));
            assert(!all_digits(digits));
            return None;
        }
        i = i + 1;
    }
    assert(all_digits(digits)) by {
        assert forall|k: int| 0 <= k < digits.len() implies is_digit(#[trigger] digits[k]) by {
            assert(digits[k] == s@[start + k]);
        }
    }
    let mut acc: u64 = 0;
    let mut j = start;
    while j < n
        invariant
            start <= j <= n,
            n == s@.len(),
            s@ == text@,
            digits == (if s@.len() > 0 && (s@[0] == '+' || s@[0] == '-') {
                s@.drop_first()
            } else {
                s@
            }),
            digits == s@.skip(start as int),
            all_digits(digits),
            acc as int == decimal_value(digits.take(j - start)),
            acc <= 0x8000_0000_0000_0000u64,
        decreases n - j,
    {
        assert(digits.take(j + 1 - start).drop_last() =~= digits.take(j - start));
        assert(is_digit(digits[j - start]));
        let d = (s[j] as u64) - 48;
        if acc > (0x8000_0000_0000_0000u64 - d) / 10 {
            proof {
                lemma_decimal_value_prefix(digits, j + 1 - start);
            }
            return None;
        }
        acc = acc * 10 + d;
        j = j + 1;
    }
    assert(digits.take(j - start) =~= digits);
    if negative {
        if acc == 0x8000_0000_0000_0000u64 {
            Some(-0x7fff_ffff_ffff_ffffi64 - 1)
        } else {
            Some(-(acc as i64))
        }
    } else {
        if acc > 0x7fff_ffff_ffff_ffffu64 {
            None
        } else {
            Some(acc as i64)
        }
    }
}

} // verus!
