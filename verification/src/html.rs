//! Extractors for the fixed HTML shapes the login chain and the activity pages
//! use.
//!
//! The inputs are machine-generated forms, so each extractor is a plain
//! substring scan whose result is stated exactly over the page's characters.

use vstd::prelude::*;

use crate::text::{
    chars_of, contains, find, find_char_from, find_from, find_from_exec, is_ws, is_ws_exec,
    lemma_find_from_props, lemma_find_skip, lemma_first_occurrence, lemma_no_occurrence, lemma_scan_until_unique, lemma_utf8_len_push, lower,
    lower_chars, matches_at, rfind_char, rfind_char_exec, scan_until, skip_ws, string_from,
    trim_start, utf8_len, ws_prefix_len,
};

verus! {

/// An optional string, seen as its characters.
pub open spec fn opt_view(o: Option<String>) -> Option<Seq<char>> {
    match o {
        Some(s) => Some(s@),
        None => None,
    }
}

/// A character that ends an unquoted JavaScript scalar.
pub open spec fn is_js_value_stop(c: char) -> bool {
    c == ';' || c == '\n' || is_ws(c)
}

/// A character that ends an unquoted attribute value.
pub open spec fn is_attr_value_stop(c: char) -> bool {
    is_ws(c) || c == '>'
}

/// The text between an opening quote at `s[0]` and the next matching quote.
pub open spec fn quoted_body(s: Seq<char>) -> Option<Seq<char>> {
    let body = s.skip(1);
    match find(body, seq![s[0]]) {
        Some(end) => Some(body.take(end)),
        None => None,
    }
}

/// The value of a scalar assignment, read from its first character on.
pub open spec fn js_value(value: Seq<char>) -> Option<Seq<char>> {
    if value.len() > 0 && (value[0] == '"' || value[0] == '\'') {
        quoted_body(value)
    } else {
        Some(value.take(scan_until(value, 0, |c: char| is_js_value_stop(c))))
    }
}

/// Scan `html` from `cursor` for `needle` followed by optional whitespace and
/// `=`, and read the assigned value; an occurrence without `=` is skipped.
pub open spec fn js_var_from(html: Seq<char>, needle: Seq<char>, cursor: int) -> Option<
    Seq<char>,
>
    decreases html.len() + 1 - cursor,
{
    match find_from(html, needle, cursor) {
        None => None,
        Some(start) => {
            let rest = html.skip(start + needle.len());
            let trimmed = trim_start(rest);
            if trimmed.len() > 0 && trimmed[0] == '=' {
                js_value(trim_start(trimmed.skip(1)))
            } else {
                let after_name = start + needle.len() + ws_prefix_len(rest);
                if cursor < after_name <= html.len() + 1 {
                    js_var_from(html, needle, after_name)
                } else {
                    None
                }
            }
        },
    }
}

/// The value assigned by the first `var NAME = value` in `html`.
pub open spec fn js_var_spec(html: Seq<char>, name: Seq<char>) -> Option<Seq<char>> {
    js_var_from(html, "var "@ + name, 0)
}

/// `attr="value"`, `attr='value'` or `attr=value` inside one tag; the attribute
/// name is located case-insensitively.
pub open spec fn attribute_value_spec(tag: Seq<char>, attribute: Seq<char>) -> Option<Seq<char>> {
    let needle = attribute.push('=');
    match find(lower(tag), needle) {
        None => None,
        Some(at) => {
            let rest = tag.skip(at + needle.len());
            if rest.len() == 0 {
                None
            } else if rest[0] == '"' || rest[0] == '\'' {
                quoted_body(rest)
            } else {
                Some(rest.take(scan_until(rest, 0, |c: char| is_attr_value_stop(c))))
            }
        },
    }
}

/// The text of the tag opening at `start`, up to (not including) its `>`.
pub open spec fn tag_at(html: Seq<char>, start: int) -> Option<Seq<char>> {
    let rest = html.skip(start);
    match find(rest, seq!['>']) {
        Some(end) => Some(rest.take(end)),
        None => None,
    }
}

/// The `action` of the first `<form ...>` element.
pub open spec fn first_form_action_spec(html: Seq<char>) -> Option<Seq<char>> {
    match find(html, "<form"@) {
        None => None,
        Some(start) => match tag_at(html, start) {
            None => None,
            Some(tag) => attribute_value_spec(tag, "action"@),
        },
    }
}

/// The `action` of the first `<form ...>` at or after `cursor` whose tag text
/// contains `marker`.
pub open spec fn form_action_from(html: Seq<char>, marker: Seq<char>, cursor: int) -> Option<
    Seq<char>,
>
    decreases html.len() + 1 - cursor,
{
    match find_from(html, "<form"@, cursor) {
        None => None,
        Some(start) => match find(html.skip(start), seq!['>']) {
            None => None,
            Some(tag_end) => {
                let tag = html.skip(start).take(tag_end);
                if contains(tag, marker) {
                    attribute_value_spec(tag, "action"@)
                } else if cursor < start + tag_end <= html.len() + 1 {
                    form_action_from(html, marker, start + tag_end)
                } else {
                    None
                }
            },
        },
    }
}

/// The `value` of the element whose tag carries `name="NAME"`.
pub open spec fn input_value_spec(html: Seq<char>, name: Seq<char>) -> Option<Seq<char>> {
    let needle = "name=\""@ + name + "\""@;
    match find(html, needle) {
        None => None,
        Some(name_at) => match rfind_char(html.take(name_at), '<') {
            None => None,
            Some(tag_start) => match tag_at(html, tag_start) {
                None => None,
                Some(tag) => if tag_start + tag.len() < name_at + needle.len() {
                    None
                } else {
                    attribute_value_spec(tag, "value"@)
                },
            },
        },
    }
}

/// The text after `marker` up to the next `quote`, when `marker` occurs.
pub open spec fn quoted_after(html: Seq<char>, marker: Seq<char>, quote: char) -> Option<
    Option<Seq<char>>,
> {
    match find(html, marker) {
        None => None,
        Some(start) => {
            let rest = html.skip(start + marker.len());
            match find(rest, seq![quote]) {
                Some(end) => Some(Some(rest.take(end))),
                None => Some(None),
            }
        },
    }
}

/// The target of the first redirect marker present in `html`, tried in order.
pub open spec fn script_redirect_spec(html: Seq<char>) -> Option<Seq<char>> {
    match quoted_after(html, "window.location.href='"@, '\'') {
        Some(r) => r,
        None => match quoted_after(html, "window.location.href=\""@, '"') {
            Some(r) => r,
            None => match quoted_after(html, "location.href='"@, '\'') {
                Some(r) => r,
                None => match quoted_after(html, "location.href=\""@, '"') {
                    Some(r) => r,
                    None => None,
                },
            },
        },
    }
}

/// The markers a post-login redirect is written with, each with the quote
/// that closes its target.
pub open spec fn redirect_marker(marker: Seq<char>, quote: char) -> bool {
    ||| marker == "window.location.href='"@ && quote == '\''
    ||| marker == "window.location.href=\""@ && quote == '"'
    ||| marker == "location.href='"@ && quote == '\''
    ||| marker == "location.href=\""@ && quote == '"'
}

/// Whether `x` holds no `quote`.
pub open spec fn free_of(x: Seq<char>, quote: char) -> bool {
    forall|k: int| 0 <= k < x.len() ==> x[k] != quote
}

/// What `quoted_after` finds is text that follows the marker at some position
/// and runs up to, not including, the next quote.
proof fn lemma_quoted_after_sound(html: Seq<char>, marker: Seq<char>, quote: char, x: Seq<char>) -> (i: int)
    requires
        quoted_after(html, marker, quote) == Some(Some(x)),
    ensures
        matches_at(html, marker, i),
        matches_at(html, x.push(quote), i + marker.len()),
        free_of(x, quote),
{
    lemma_find_from_props(html, marker, 0);
    let start = find(html, marker)->0;
    let from = start + marker.len();
    let rest = html.skip(from);
    lemma_find_from_props(rest, seq![quote], 0);
    let end = find(rest, seq![quote])->0;
    assert(x == rest.take(end));
    assert(rest.subrange(end, end + 1) =~= seq![quote]);
    assert(html.subrange(from, from + end + 1) =~= x.push(quote)) by {
        assert forall|k: int| 0 <= k < end + 1 implies html.subrange(from, from + end + 1)[k] == x.push(
            quote,
        )[k] by {
            if k == end {
                assert(rest[end] == seq![quote][0]);
            }
        }
    }
    assert forall|k: int| 0 <= k < x.len() implies x[k] != quote by {
        if x[k] == quote {
            assert(rest.subrange(k, k + 1) =~= seq![quote]);
            assert(matches_at(rest, seq![quote], k));
        }
    }
    start
}

/// A marker found first and followed by a quote-free target and its closing
/// quote gives that target.
proof fn lemma_quoted_after_found(html: Seq<char>, marker: Seq<char>, quote: char, i: int, x: Seq<char>)
    requires
        matches_at(html, marker, i),
        forall|m: int| 0 <= m < i ==> !matches_at(html, marker, m),
        matches_at(html, x.push(quote), i + marker.len()),
        free_of(x, quote),
    ensures
        quoted_after(html, marker, quote) == Some(Some(x)),
{
    lemma_first_occurrence(html, marker, i);
    let from = i + marker.len();
    let rest = html.skip(from);
    assert(rest.subrange(x.len() as int, x.len() + 1int) =~= seq![quote]) by {
        assert(html.subrange(from, from + x.len() + 1)[x.len() as int] == quote);
    }
    assert forall|m: int| 0 <= m < x.len() implies !matches_at(rest, seq![quote], m) by {
        assert(html.subrange(from, from + x.len() + 1)[m] == x[m]);
        if matches_at(rest, seq![quote], m) {
            assert(rest.subrange(m, m + 1)[0] == rest[m]);
        }
    }
    lemma_first_occurrence(rest, seq![quote], x.len() as int);
    assert(rest.take(x.len() as int) =~= x) by {
        assert forall|k: int| 0 <= k < x.len() implies rest.take(x.len() as int)[k] == x[k] by {
            assert(html.subrange(from, from + x.len() + 1)[k] == x.push(quote)[k]);
        }
    }
}

/// A redirect written `location.href='X'` leads to `X`: on a page with no
/// `window.location.href=` marker, when the first `location.href='` is
/// followed by a target without `'` and then a closing `'`, the post-login
/// redirect is that target.
pub proof fn lemma_script_redirect_single_quoted(html: Seq<char>, i: int, target: Seq<char>)
    requires
        forall|m: int| !matches_at(html, "window.location.href='"@, m),
        forall|m: int| !matches_at(html, "window.location.href=\""@, m),
        matches_at(html, "location.href='"@, i),
        forall|m: int| 0 <= m < i ==> !matches_at(html, "location.href='"@, m),
        matches_at(html, target.push('\''), i + "location.href='"@.len()),
        free_of(target, '\''),
    ensures
        script_redirect_spec(html) == Some(target),
{
    lemma_no_occurrence(html, "window.location.href='"@);
    lemma_no_occurrence(html, "window.location.href=\""@);
    lemma_quoted_after_found(html, "location.href='"@, '\'', i, target);
}

/// A redirect written `location.href="X"` leads to `X` in the same way, on a
/// page that has neither `window.location.href=` nor `location.href='`.
pub proof fn lemma_script_redirect_double_quoted(html: Seq<char>, i: int, target: Seq<char>)
    requires
        forall|m: int| !matches_at(html, "window.location.href='"@, m),
        forall|m: int| !matches_at(html, "window.location.href=\""@, m),
        forall|m: int| !matches_at(html, "location.href='"@, m),
        matches_at(html, "location.href=\""@, i),
        forall|m: int| 0 <= m < i ==> !matches_at(html, "location.href=\""@, m),
        matches_at(html, target.push('"'), i + "location.href=\""@.len()),
        free_of(target, '"'),
    ensures
        script_redirect_spec(html) == Some(target),
{
    lemma_no_occurrence(html, "window.location.href='"@);
    lemma_no_occurrence(html, "window.location.href=\""@);
    lemma_no_occurrence(html, "location.href='"@);
    lemma_quoted_after_found(html, "location.href=\""@, '"', i, target);
}

/// Every redirect found is the text written after one of the markers, up to
/// the first closing quote: the page holds the marker, then the target, then
/// the quote, and the target holds no such quote.
pub proof fn lemma_script_redirect_is_quoted(html: Seq<char>)
    ensures
        script_redirect_spec(html) matches Some(x) ==> exists|i: int, marker: Seq<char>, quote: char|
            #![trigger redirect_marker(marker, quote), matches_at(html, marker, i)]
            redirect_marker(marker, quote) && matches_at(html, marker, i) && matches_at(
                html,
                x.push(quote),
                i + marker.len(),
            ) && free_of(x, quote),
{
    if let Some(x) = script_redirect_spec(html) {
        let m1 = "window.location.href='"@;
        let m2 = "window.location.href=\""@;
        let m3 = "location.href='"@;
        let m4 = "location.href=\""@;
        if quoted_after(html, m1, '\'') is Some {
            let i = lemma_quoted_after_sound(html, m1, '\'', x);
            assert(redirect_marker(m1, '\''));
        } else if quoted_after(html, m2, '"') is Some {
            let i = lemma_quoted_after_sound(html, m2, '"', x);
            assert(redirect_marker(m2, '"'));
        } else if quoted_after(html, m3, '\'') is Some {
            let i = lemma_quoted_after_sound(html, m3, '\'', x);
            assert(redirect_marker(m3, '\''));
        } else {
            let i = lemma_quoted_after_sound(html, m4, '"', x);
            assert(redirect_marker(m4, '"'));
        }
    }
}

/// The NAM login interstitial: short, pointing at the SSO endpoint,
/// auto-submitting, and carrying no `take_url`.
pub open spec fn is_login_redirect_spec(body: Seq<char>) -> bool {
    &&& utf8_len(body) < 2000
    &&& contains(body, "/nidp/idff/sso"@)
    &&& contains(body, "document.forms[0].submit()"@)
    &&& !contains(body, "take_url"@)
}

// ---------------------------------------------------------------------------

/// The text of an opening quote's body, starting at `s[q]`.
fn quoted_body_exec(s: &[char], q: usize) -> (r: Option<String>)
    requires
        q < s@.len(),
    ensures
        opt_view(r) == quoted_body(s@.skip(q as int)),
{
    let ghost v = s@.skip(q as int);
    let ghost body = v.skip(1);
    assert(body =~= s@.skip(q + 1));
    match find_char_from(s, s[q], q + 1) {
        Some(e) => {
            proof {
                lemma_find_relative(s@, seq![s@[q as int]], q + 1, e as int);
            }
            let r = string_from(s, q + 1, e);
            assert(r@ =~= body.take(e - (q + 1)));
            Some(r)
        },
        None => {
            proof {
                lemma_find_relative_none(s@, seq![s@[q as int]], q + 1);
            }
            None
        },
    }
}

/// First index at or after `from` holding a JavaScript value terminator.
fn scan_js_value(s: &[char], from: usize) -> (r: usize)
    requires
        from <= s@.len(),
    ensures
        from <= r <= s@.len(),
        r - from == scan_until(s@.skip(from as int), 0, |c: char| is_js_value_stop(c)),
{
    let mut i = from;
    while i < s.len() && !(s[i] == ';' || s[i] == '\n' || is_ws_exec(s[i]))
        invariant
            from <= i <= s@.len(),
            forall|k: int| from <= k < i ==> !is_js_value_stop(#[trigger] s@[k]),
        decreases s.len() - i,
    {
        i = i + 1;
    }
    proof {
        let t = s@.skip(from as int);
        assert forall|k: int| 0 <= k < i - from implies !is_js_value_stop(#[trigger] t[k]) by {
            assert(t[k] == s@[from + k]);
        }
        if i < s@.len() {
            assert(t[i - from] == s@[i as int]);
        }
        lemma_scan_until_unique(t, 0, i - from, |c: char| is_js_value_stop(c));
    }
    i
}

/// First index at or after `from` holding an attribute value terminator.
fn scan_attr_value(s: &[char], from: usize) -> (r: usize)
    requires
        from <= s@.len(),
    ensures
        from <= r <= s@.len(),
        r - from == scan_until(s@.skip(from as int), 0, |c: char| is_attr_value_stop(c)),
{
    let mut i = from;
    while i < s.len() && !(is_ws_exec(s[i]) || s[i] == '>')
        invariant
            from <= i <= s@.len(),
            forall|k: int| from <= k < i ==> !is_attr_value_stop(#[trigger] s@[k]),
        decreases s.len() - i,
    {
        i = i + 1;
    }
    proof {
        let t = s@.skip(from as int);
        assert forall|k: int| 0 <= k < i - from implies !is_attr_value_stop(#[trigger] t[k]) by {
            assert(t[k] == s@[from + k]);
        }
        if i < s@.len() {
            assert(t[i - from] == s@[i as int]);
        }
        lemma_scan_until_unique(t, 0, i - from, |c: char| is_attr_value_stop(c));
    }
    i
}

/// A search in a suffix is a search in the whole from that offset.
pub proof fn lemma_find_relative(s: Seq<char>, pat: Seq<char>, from: int, k: int)
    requires
        0 <= from <= s.len(),
        find_from(s, pat, from) == Some(k),
    ensures
        find(s.skip(from), pat) == Some(k - from),
{
    lemma_find_from_props(s, pat, from);
    let t = s.skip(from);
    assert forall|m: int| 0 <= m < k - from implies !matches_at(t, pat, m) by {
        if matches_at(t, pat, m) {
            assert(s.subrange(from + m, from + m + pat.len()) =~= t.subrange(m, m + pat.len()));
            assert(matches_at(s, pat, from + m));
        }
    }
    assert(t.subrange(k - from, k - from + pat.len()) =~= s.subrange(k, k + pat.len()));
    lemma_find_skip(t, pat, 0, k - from);
}

/// A failed search in the whole from an offset is a failed search in the
/// suffix.
pub proof fn lemma_find_relative_none(s: Seq<char>, pat: Seq<char>, from: int)
    requires
        0 <= from <= s.len(),
        find_from(s, pat, from) is None,
    ensures
        find(s.skip(from), pat) is None,
{
    lemma_find_from_props(s, pat, from);
    let t = s.skip(from);
    lemma_find_from_props(t, pat, 0);
    if let Some(m) = find(t, pat) {
        assert(s.subrange(from + m, from + m + pat.len()) =~= t.subrange(m, m + pat.len()));
        assert(matches_at(s, pat, from + m));
    }
}

/// The value of a scalar assignment starting at `s[q]`.
fn js_value_exec(s: &[char], q: usize) -> (r: Option<String>)
    requires
        q <= s@.len(),
    ensures
        opt_view(r) == js_value(s@.skip(q as int)),
{
    if q < s.len() && (s[q] == '"' || s[q] == '\'') {
        quoted_body_exec(s, q)
    } else {
        let e = scan_js_value(s, q);
        let r = string_from(s, q, e);
        assert(r@ =~= s@.skip(q as int).take(e - q));
        Some(r)
    }
}

/// Concatenate two character runs.
fn concat_chars(a: &[char], b: &[char]) -> (r: Vec<char>)
    ensures
        r@ == a@ + b@,
{
    let mut r: Vec<char> = Vec::new();
    let mut i: usize = 0;
    while i < a.len()
        invariant
            i <= a@.len(),
            r@ =~= a@.take(i as int),
        decreases a.len() - i,
    {
        r.push(a[i]);
        i = i + 1;
    }
    let mut j: usize = 0;
    while j < b.len()
        invariant
            j <= b@.len(),
            r@ =~= a@ + b@.take(j as int),
        decreases b.len() - j,
    {
        r.push(b[j]);
        j = j + 1;
    }
    assert(b@.take(b@.len() as int) =~= b@);
    r
}

/// Read a JavaScript scalar assignment such as `var unid="abc";` or
/// `var n=0;`.
pub fn js_var(html: &str, name: &str) -> (r: Option<String>)
    ensures
        opt_view(r) == js_var_spec(html@, name@),
{
    let h = chars_of(html);
    let prefix = chars_of("var ");
    let n = chars_of(name);
    let needle = concat_chars(&prefix, &n);
    proof {
        reveal_strlit("var ");
    }
    let mut cursor: usize = 0;
    while cursor <= h.len()
        invariant
            cursor <= h@.len() + 1,
            needle@.len() >= 1,
            js_var_spec(html@, name@) == js_var_from(h@, needle@, cursor as int),
            h@ == html@,
            needle@ == "var "@ + name@,
        decreases h.len() + 1 - cursor,
    {
        let start = match find_from_exec(&h, &needle, cursor) {
            None => return None,
            Some(start) => start,
        };
        proof {
            lemma_find_from_props(h@, needle@, cursor as int);
        }
        let after = start + needle.len();
        let p = skip_ws(&h, after, h.len());
        assert(h@.subrange(after as int, h@.len() as int) =~= h@.skip(after as int));
        assert(trim_start(h@.skip(after as int)) =~= h@.skip(p as int));
        if p < h.len() && h[p] == '=' {
            let q = skip_ws(&h, p + 1, h.len());
            assert(h@.subrange(p + 1, h@.len() as int) =~= h@.skip(p as int).skip(1));
            assert(trim_start(h@.skip(p as int).skip(1)) =~= h@.skip(q as int));
            return js_value_exec(&h, q);
        }
        cursor = p;
    }
    None
}

/// Extract `attr="value"` out of a tag, tolerating unquoted values.
pub fn attribute_value(tag: &str, attribute: &str) -> (r: Option<String>)
    ensures
        opt_view(r) == attribute_value_spec(tag@, attribute@),
{
    let t = chars_of(tag);
    let a = chars_of(attribute);
    attribute_value_chars(&t, &a)
}

pub(crate) fn attribute_value_chars(t: &[char], attribute: &[char]) -> (r: Option<String>)
    ensures
        opt_view(r) == attribute_value_spec(t@, attribute@),
{
    let eq = ['='];
    let needle = concat_chars(attribute, &eq);
    assert(needle@ =~= attribute@.push('='));
    let lower = lower_chars(t);
    let at = match find_from_exec(&lower, &needle, 0) {
        None => return None,
        Some(at) => at,
    };
    proof {
        lemma_find_from_props(lower@, needle@, 0);
    }
    assert(lower@.len() == t@.len());
    assert(at + needle@.len() <= lower@.len());
    let _tl = lower.len();
    let nl = needle.len();
    assert(nl == needle@.len());
    let p = at + nl;
    if p >= t.len() {
        return None;
    }
    if t[p] == '"' || t[p] == '\'' {
        quoted_body_exec(t, p)
    } else {
        let e = scan_attr_value(t, p);
        let r = string_from(t, p, e);
        assert(r@ =~= t@.skip(p as int).take(e - p));
        Some(r)
    }
}

/// The tag text starting at `start`, up to its `>`.
pub(crate) fn tag_at_exec(h: &[char], start: usize) -> (r: Option<Vec<char>>)
    requires
        start <= h@.len(),
    ensures
        r matches Some(v) ==> tag_at(h@, start as int) == Some(v@) && start + v@.len() <= h@.len()
            && find(h@.skip(start as int), seq!['>']) == Some(v@.len() as int),
        r is None ==> tag_at(h@, start as int) is None,
{
    match find_char_from(h, '>', start) {
        Some(e) => {
            proof {
                lemma_find_relative(h@, seq!['>'], start as int, e as int);
            }
            let mut v: Vec<char> = Vec::new();
            let mut i = start;
            while i < e
                invariant
                    start <= i <= e,
                    e <= h@.len(),
                    v@ =~= h@.subrange(start as int, i as int),
                decreases e - i,
            {
                v.push(h[i]);
                i = i + 1;
            }
            assert(v@ =~= h@.skip(start as int).take(e - start));
            Some(v)
        },
        None => {
            proof {
                lemma_find_relative_none(h@, seq!['>'], start as int);
            }
            None
        },
    }
}

/// Extract the `action` attribute of the first `<form ...>` element.
pub fn first_form_action(html: &str) -> (r: Option<String>)
    ensures
        opt_view(r) == first_form_action_spec(html@),
{
    let h = chars_of(html);
    let form = chars_of("<form");
    let start = match find_from_exec(&h, &form, 0) {
        None => return None,
        Some(start) => start,
    };
    proof {
        lemma_find_from_props(h@, form@, 0);
    }
    let tag = match tag_at_exec(&h, start) {
        None => return None,
        Some(tag) => tag,
    };
    let action = chars_of("action");
    attribute_value_chars(&tag, &action)
}

/// Extract the `action` of the first `<form ...>` element whose tag contains
/// `marker`.
pub fn form_action_containing(html: &str, marker: &str) -> (r: Option<String>)
    ensures
        opt_view(r) == form_action_from(html@, marker@, 0),
{
    let h = chars_of(html);
    let m = chars_of(marker);
    let form = chars_of("<form");
    let action = chars_of("action");
    let mut cursor: usize = 0;
    while cursor <= h.len()
        invariant
            cursor <= h@.len() + 1,
            form_action_from(html@, marker@, 0) == form_action_from(h@, m@, cursor as int),
            h@ == html@,
            m@ == marker@,
            form@ == "<form"@,
            action@ == "action"@,
        decreases h.len() + 1 - cursor,
    {
        let start = match find_from_exec(&h, &form, cursor) {
            None => return None,
            Some(start) => start,
        };
        proof {
            lemma_find_from_props(h@, form@, cursor as int);
        }
        let tag = match tag_at_exec(&h, start) {
            None => return None,
            Some(tag) => tag,
        };
        let ghost tag_end = tag@.len();
        let found = find_from_exec(&tag, &m, 0);
        if found.is_some() {
            return attribute_value_chars(&tag, &action);
        }
        proof {
            assert(form@.len() == 5) by {
                reveal_strlit("<form");
            }
            assert(form@[0] == '<') by {
                reveal_strlit("<form");
            }
            assert(h@.subrange(start as int, start + 5) == form@);
            assert(h@[start as int] == h@.subrange(start as int, start + 5)[0]);
            assert(h@.skip(start as int)[0] == '<');
            let rest = h@.skip(start as int);
            lemma_find_from_props(rest, seq!['>'], 0);
            assert(matches_at(rest, seq!['>'], tag_end as int));
            assert(rest.subrange(tag_end as int, (tag_end + 1) as int)[0] == rest[tag_end as int]);
            assert(tag_end > 0);
        }
        cursor = start + tag.len();
    }
    None
}

/// Extract the `value` attribute of the input element named `name`.
pub fn input_value_for(html: &str, name: &str) -> (r: Option<String>)
    ensures
        opt_view(r) == input_value_spec(html@, name@),
{
    let h = chars_of(html);
    let open = chars_of("name=\"");
    let n = chars_of(name);
    let close = chars_of("\"");
    let first = concat_chars(&open, &n);
    let needle = concat_chars(&first, &close);
    let name_at = match find_from_exec(&h, &needle, 0) {
        None => return None,
        Some(k) => k,
    };
    proof {
        lemma_find_from_props(h@, needle@, 0);
    }
    let tag_start = match rfind_char_exec(&h, '<', name_at) {
        None => return None,
        Some(k) => k,
    };
    proof {
        lemma_rfind_char_props(h@.take(name_at as int), '<');
    }
    let tag = match tag_at_exec(&h, tag_start) {
        None => return None,
        Some(tag) => tag,
    };
    let _hl = h.len();
    assert(name_at + needle@.len() <= h@.len());
    if tag_start + tag.len() < name_at + needle.len() {
        return None;
    }
    let value = chars_of("value");
    attribute_value_chars(&tag, &value)
}

/// Where the last occurrence of a character lies.
proof fn lemma_rfind_char_props(s: Seq<char>, c: char)
    ensures
        rfind_char(s, c) matches Some(k) ==> 0 <= k < s.len(),
    decreases s.len(),
{
    if s.len() > 0 && s.last() != c {
        lemma_rfind_char_props(s.drop_last(), c);
    }
}

/// The text after `marker` up to `quote`, when `marker` occurs.
fn quoted_after_exec(h: &[char], marker: &str, quote: char) -> (r: Option<Option<String>>)
    ensures
        r matches Some(o) ==> quoted_after(h@, marker@, quote) == Some(opt_view(o)),
        r is None ==> quoted_after(h@, marker@, quote) is None,
{
    let m = chars_of(marker);
    let start = match find_from_exec(h, &m, 0) {
        None => return None,
        Some(k) => k,
    };
    proof {
        lemma_find_from_props(h@, m@, 0);
    }
    let _hl = h.len();
    assert(start + m@.len() <= h@.len());
    let from = start + m.len();
    assert(h@.skip(from as int) =~= h@.skip(start + m@.len()));
    match find_char_from(h, quote, from) {
        Some(e) => {
            proof {
                lemma_find_relative(h@, seq![quote], from as int, e as int);
            }
            let r = string_from(h, from, e);
            assert(r@ =~= h@.skip(from as int).take(e - from));
            Some(Some(r))
        },
        None => {
            proof {
                lemma_find_relative_none(h@, seq![quote], from as int);
            }
            Some(None)
        },
    }
}

/// Extract the target of a JavaScript `window.location.href='...'` redirect.
pub fn script_redirect(html: &str) -> (r: Option<String>)
    ensures
        opt_view(r) == script_redirect_spec(html@),
{
    let h = chars_of(html);
    if let Some(r) = quoted_after_exec(&h, "window.location.href='", '\'') {
        return r;
    }
    if let Some(r) = quoted_after_exec(&h, "window.location.href=\"", '"') {
        return r;
    }
    if let Some(r) = quoted_after_exec(&h, "location.href='", '\'') {
        return r;
    }
    if let Some(r) = quoted_after_exec(&h, "location.href=\"", '"') {
        return r;
    }
    None
}

/// UTF-8 length of a run of characters, saturating at `u64::MAX`.
pub fn utf8_len_exec(s: &[char]) -> (n: u64)
    ensures
        n as int == utf8_len(s@) || (n == u64::MAX && utf8_len(s@) >= u64::MAX),
{
    let mut n: u64 = 0;
    let mut i: usize = 0;
    while i < s.len()
        invariant
            i <= s@.len(),
            n as int == utf8_len(s@.take(i as int)) || (n == u64::MAX && utf8_len(
                s@.take(i as int),
            ) >= u64::MAX),
        decreases s.len() - i,
    {
        let c = s[i];
        let w: u64 = if (c as u32) < 0x80 {
            1
        } else if (c as u32) < 0x800 {
            2
        } else if (c as u32) < 0x10000 {
            3
        } else {
            4
        };
        proof {
            assert(s@.take(i + 1) =~= s@.take(i as int).push(c));
            lemma_utf8_len_push(s@.take(i as int), c);
        }
        n = if n > u64::MAX - w { u64::MAX } else { n + w };
        i = i + 1;
    }
    assert(s@.take(s@.len() as int) =~= s@);
    n
}

/// Whether a page body is the NAM login interstitial rather than real content.
///
/// When OLE stops accepting a session it answers a page request with a small
/// auto-submitting form that bounces the client into the SSO flow.
pub fn is_login_redirect(body: &str) -> (b: bool)
    ensures
        b == is_login_redirect_spec(body@),
{
    let h = chars_of(body);
    let n = utf8_len_exec(&h);
    if n >= 2000 {
        return false;
    }
    let sso = chars_of("/nidp/idff/sso");
    let submit = chars_of("document.forms[0].submit()");
    let take = chars_of("take_url");
    find_from_exec(&h, &sso, 0).is_some() && find_from_exec(&h, &submit, 0).is_some()
        && find_from_exec(&h, &take, 0).is_none()
}

} // verus!
