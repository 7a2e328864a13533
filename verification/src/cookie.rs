//! A minimal RFC 6265 cookie store for the hosts involved in the OLE login
//! chain.

use vstd::prelude::*;

use crate::text::{
    chars_of, debug_quoted, ends_with, find, find_char_range, int_text, int_text_exec, lower,
    lower_chars, push_char, quote_debug, range_eq, ranges_eq, rfind_char, rfind_char_exec,
    split_once, starts_with, string_from, trim, trim_range, utf8_len,
};
use crate::web_url::RequestUrl;
use crate::html::utf8_len_exec;

verus! {

/// A cookie, seen as plain values.
pub struct CookieView {
    pub name: Seq<char>,
    pub value: Seq<char>,
    pub domain: Seq<char>,
    pub path: Seq<char>,
    pub secure: bool,
}

/// A single stored cookie.
#[derive(Clone)]
pub struct Cookie {
    /// Cookie name.
    pub name: String,
    /// Cookie value.
    pub value: String,
    /// Domain attribute; a leading dot means "includes subdomains".
    pub domain: String,
    /// Path attribute.
    pub path: String,
    /// Whether the cookie may only be sent over HTTPS.
    pub secure: bool,
}

impl View for Cookie {
    type V = CookieView;

    open spec fn view(&self) -> CookieView {
        CookieView {
            name: self.name@,
            value: self.value@,
            domain: self.domain@,
            path: self.path@,
            secure: self.secure,
        }
    }
}

/// Domain-match per RFC 6265 section 5.1.3, case-insensitively.
pub open spec fn host_matches_spec(host: Seq<char>, domain: Seq<char>) -> bool {
    let h = lower(host);
    let d = lower(domain);
    if d.len() > 0 && d[0] == '.' {
        h == d.skip(1) || ends_with(h, d)
    } else {
        h == d
    }
}

/// Path-match per RFC 6265 section 5.1.4, treating an empty attribute as `/`.
pub open spec fn path_matches_spec(request_path: Seq<char>, cookie_path: Seq<char>) -> bool {
    let cp = if cookie_path.len() == 0 {
        seq!['/']
    } else {
        cookie_path
    };
    ||| request_path == cp
    ||| starts_with(request_path, cp) && (ends_with(cp, seq!['/']) || (request_path.len()
        > cp.len() && request_path[cp.len() as int] == '/'))
}

/// Whether a cookie accompanies a request to a URL with this scheme, host and
/// path.
pub open spec fn cookie_matches_spec(
    c: CookieView,
    scheme: Seq<char>,
    host: Option<Seq<char>>,
    path: Seq<char>,
) -> bool {
    match host {
        None => false,
        Some(h) => host_matches_spec(h, c.domain) && !(c.secure && scheme != "https"@)
            && path_matches_spec(path, c.path),
    }
}

/// `name=value`.
pub open spec fn cookie_pair(c: CookieView) -> Seq<char> {
    c.name + seq!['='] + c.value
}

/// Join `parts` with `sep` between neighbours.
pub open spec fn join(parts: Seq<Seq<char>>, sep: Seq<char>) -> Seq<char>
    decreases parts.len(),
{
    if parts.len() == 0 {
        Seq::empty()
    } else if parts.len() == 1 {
        parts[0]
    } else {
        join(parts.drop_last(), sep) + sep + parts.last()
    }
}

/// The `Cookie:` header value for a request: the matching cookies, in store
/// order, as `name=value` joined by `"; "`.
pub open spec fn header_spec(
    cs: Seq<CookieView>,
    scheme: Seq<char>,
    host: Option<Seq<char>>,
    path: Seq<char>,
) -> Seq<char> {
    join(
        cs.filter(|c: CookieView| cookie_matches_spec(c, scheme, host, path)).map_values(
            |c: CookieView| cookie_pair(c),
        ),
        seq![';', ' '],
    )
}

/// Whether two cookies share (domain, path, name).
pub open spec fn same_key(a: CookieView, b: CookieView) -> bool {
    a.name == b.name && a.domain == b.domain && a.path == b.path
}

/// The store after inserting `c`: any entry with the same key is dropped and
/// `c` goes last.
pub open spec fn upsert_spec(cs: Seq<CookieView>, c: CookieView) -> Seq<CookieView> {
    cs.filter(|e: CookieView| !same_key(e, c)).push(c)
}

/// The default cookie path for a request path: its directory, per RFC 6265
/// section 5.1.4.
pub open spec fn default_path_spec(request_path: Seq<char>) -> Seq<char> {
    if !(request_path.len() > 0 && request_path[0] == '/') {
        seq!['/']
    } else {
        match rfind_char(request_path, '/') {
            Some(i) => if i == 0 {
                seq!['/']
            } else {
                request_path.take(i)
            },
            None => seq!['/'],
        }
    }
}

/// The (domain, path, secure) attributes after reading one attribute segment.
pub open spec fn apply_attribute(seg: Seq<char>, st: (Seq<char>, Seq<char>, bool)) -> (
    Seq<char>,
    Seq<char>,
    bool,
) {
    let a = trim(seg);
    let kv: (Seq<char>, Seq<char>) = match split_once(a, '=') {
        Some((k, v)) => (trim(k), trim(v)),
        None => (a, Seq::empty()),
    };
    let key = lower(kv.0);
    let val = kv.1;
    if key == "domain"@ {
        if val.len() > 0 {
            (val, st.1, st.2)
        } else {
            st
        }
    } else if key == "path"@ {
        if val.len() > 0 {
            (st.0, val, st.2)
        } else {
            st
        }
    } else if key == "secure"@ {
        (st.0, st.1, true)
    } else {
        st
    }
}

/// Apply every `;`-separated attribute segment of `s` from index `i` on, in
/// order.
pub open spec fn apply_attributes(s: Seq<char>, i: int, st: (Seq<char>, Seq<char>, bool)) -> (
    Seq<char>,
    Seq<char>,
    bool,
)
    decreases s.len() + 1 - i,
{
    if i < 0 || i > s.len() {
        st
    } else {
        let end = match find(s.skip(i), seq![';']) {
            Some(e) => i + e,
            None => s.len() as int,
        };
        let st2 = apply_attribute(s.subrange(i, end), st);
        if i <= end < s.len() {
            apply_attributes(s, end + 1, st2)
        } else {
            st2
        }
    }
}

/// What a `Set-Cookie` header yields for a request to a URL with this host
/// and path: `None` for a malformed header or a cookie with no domain.
pub open spec fn set_cookie_spec(header: Seq<char>, host: Option<Seq<char>>, req_path: Seq<char>) -> Option<CookieView> {
    let e = match find(header, seq![';']) {
        Some(k) => k,
        None => header.len() as int,
    };
    let pair = trim(header.take(e));
    match split_once(pair, '=') {
        None => None,
        Some((n, v)) => {
            let name = trim(n);
            if name.len() == 0 {
                None
            } else {
                let d0 = match host {
                    Some(h) => h,
                    None => Seq::empty(),
                };
                let st0 = (d0, default_path_spec(req_path), false);
                let st = if e < header.len() {
                    apply_attributes(header, e + 1, st0)
                } else {
                    st0
                };
                if st.0.len() == 0 {
                    None
                } else {
                    Some(
                        CookieView {
                            name: name,
                            value: trim(v),
                            domain: st.0,
                            path: st.1,
                            secure: st.2,
                        },
                    )
                }
            }
        },
    }
}

/// The store after ingesting each header value in order.
pub open spec fn ingest_spec(
    cs: Seq<CookieView>,
    headers: Seq<Seq<char>>,
    host: Option<Seq<char>>,
    path: Seq<char>,
) -> Seq<CookieView>
    decreases headers.len(),
{
    if headers.len() == 0 {
        cs
    } else {
        let before = ingest_spec(cs, headers.drop_last(), host, path);
        match set_cookie_spec(headers.last(), host, path) {
            Some(c) => upsert_spec(before, c),
            None => before,
        }
    }
}

/// What the redacted diagnostic rendering of a cookie shows.
pub open spec fn cookie_debug_spec(c: CookieView, name_q: Seq<char>, domain_q: Seq<char>, path_q: Seq<char>) -> Seq<char> {
    "Cookie { name: "@ + name_q + ", value: <redacted "@ + int_text(utf8_len(c.value) as int)
        + " chars>, domain: "@ + domain_q + ", path: "@ + path_q + ", secure: "@ + (if c.secure {
        "true"@
    } else {
        "false"@
    }) + " }"@
}

/// Domain-match per RFC 6265 section 5.1.3, case-insensitively.
pub fn host_matches(host: &str, domain: &str) -> (b: bool)
    ensures
        b == host_matches_spec(host@, domain@),
{
    let h = lower_chars(&chars_of(host));
    let d = lower_chars(&chars_of(domain));
    let hl = h.len();
    let dl = d.len();
    if dl > 0 && d[0] == '.' {
        if ranges_eq(&h, 0, hl, &d, 1, dl) {
            assert(h@.subrange(0, hl as int) =~= h@);
            assert(d@.subrange(1, dl as int) =~= d@.skip(1));
            return true;
        }
        assert(h@.subrange(0, hl as int) =~= h@);
        assert(d@.subrange(1, dl as int) =~= d@.skip(1));
        if dl <= hl {
            range_eq(&h, hl - dl, hl, &d)
        } else {
            false
        }
    } else {
        let r = range_eq(&h, 0, hl, &d);
        assert(h@.subrange(0, hl as int) =~= h@);
        r
    }
}

/// Path-match per RFC 6265 section 5.1.4, treating an empty attribute as `/`.
pub fn path_matches(request_path: &str, cookie_path: &str) -> (b: bool)
    ensures
        b == path_matches_spec(request_path@, cookie_path@),
{
    let r = chars_of(request_path);
    let c0 = chars_of(cookie_path);
    let cp: Vec<char> = if c0.len() == 0 {
        let mut v = Vec::new();
        v.push('/');
        assert(v@ =~= seq!['/']);
        v
    } else {
        c0
    };
    let rl = r.len();
    let cl = cp.len();
    assert(r@.subrange(0, rl as int) =~= r@);
    if range_eq(&r, 0, rl, &cp) {
        return true;
    }
    if cl > rl || !range_eq(&r, 0, cl, &cp) {
        return false;
    }
    assert(cp@.subrange(cl - 1, cl as int) =~= seq![cp@[cl - 1]]);
    assert(seq![cp@[cl - 1]][0] == cp@[cl - 1]);
    assert(seq!['/'][0] == '/');
    assert(ends_with(cp@, seq!['/']) == (cp@[cl - 1] == '/'));
    assert(starts_with(r@, cp@));
    cp[cl - 1] == '/' || (rl > cl && r[cl] == '/')
}

impl Cookie {
    /// Whether this cookie should accompany a request to `url`.
    pub fn matches(&self, url: &RequestUrl) -> (b: bool)
        ensures
            b == cookie_matches_spec(self@, url.scheme@, crate::web_url::opt_text(url.host), url.path@),
    {
        let host = match &url.host {
            Some(h) => h,
            None => return false,
        };
        if !host_matches(host.as_str(), self.domain.as_str()) {
            return false;
        }
        if self.secure {
            let s = chars_of(url.scheme.as_str());
            let https = chars_of("https");
            let sl = s.len();
            let same = range_eq(&s, 0, sl, &https);
            assert(s@.subrange(0, sl as int) =~= s@);
            if !same {
                return false;
            }
        }
        path_matches(url.path.as_str(), self.path.as_str())
    }

    /// The diagnostic rendering: every field but the value, which appears only
    /// as its length in bytes.
    pub fn debug_string(&self) -> (r: String)
        requires
            utf8_len(self.value@) < 0x7fff_ffff_ffff_ffff,
        ensures
            r@ == cookie_debug_spec(
                self@,
                debug_quoted(self.name@),
                debug_quoted(self.domain@),
                debug_quoted(self.path@),
            ),
    {
        let mut r = String::new();
        r.append("Cookie { name: ");
        r.append(quote_debug(self.name.as_str()).as_str());
        r.append(", value: <redacted ");
        let n = utf8_len_exec(&chars_of(self.value.as_str()));
        let len_text = int_text_exec(n as i64);
        r.append(len_text.as_str());
        r.append(" chars>, domain: ");
        r.append(quote_debug(self.domain.as_str()).as_str());
        r.append(", path: ");
        r.append(quote_debug(self.path.as_str()).as_str());
        r.append(", secure: ");
        if self.secure {
            r.append("true");
        } else {
            r.append("false");
        }
        r.append(" }");
        r
    }
}


/// An in-memory jar that replaces any cookie with the same (domain, path,
/// name).
#[derive(Clone)]
pub struct CookieStore {
    cookies: Vec<Cookie>,
}

impl View for CookieStore {
    type V = Seq<CookieView>;

    closed spec fn view(&self) -> Seq<CookieView> {
        self.cookies@.map_values(|c: Cookie| c@)
    }
}

/// Filtering one more element.
proof fn lemma_filter_push(s: Seq<CookieView>, x: CookieView, p: spec_fn(CookieView) -> bool)
    ensures
        s.push(x).filter(p) == (if p(x) {
            s.filter(p).push(x)
        } else {
            s.filter(p)
        }),
{
    reveal(Seq::filter);
    assert(s.push(x).drop_last() =~= s);
}

/// The first index of a cookie named `name`.
pub open spec fn first_named(cs: Seq<CookieView>, name: Seq<char>) -> Option<int> {
    if exists|k: int| 0 <= k < cs.len() && cs[k].name == name {
        Some(choose|k: int| 0 <= k < cs.len() && cs[k].name == name && forall|j: int| 0 <= j < k ==> cs[j].name != name)
    } else {
        None
    }
}

impl CookieStore {
    /// An empty jar.
    pub fn new() -> (r: CookieStore)
        ensures
            r@ == Seq::<CookieView>::empty(),
    {
        let r = CookieStore { cookies: Vec::new() };
        assert(r@ =~= Seq::<CookieView>::empty());
        r
    }

    /// Insert a cookie, superseding an identical (domain, path, name) entry.
    pub fn upsert(&mut self, cookie: Cookie)
        ensures
            final(self)@ == upsert_spec(old(self)@, cookie@),
    {
        let ghost orig = self@;
        let ghost key = cookie@;
        let ghost keep = |e: CookieView| !same_key(e, key);
        let mut rest: Vec<Cookie> = Vec::new();
        std::mem::swap(&mut rest, &mut self.cookies);
        let ghost rest0 = rest@;
        let _n = rest.len();
        let mut kept: Vec<Cookie> = Vec::new();
        let mut i: usize = 0;
        while rest.len() > 0
            invariant
                orig == rest0.map_values(|c: Cookie| c@),
                i <= rest0.len(),
                rest@ == rest0.skip(i as int),
                i + rest@.len() == rest0.len(),
                rest0.len() <= usize::MAX,
                kept@.map_values(|c: Cookie| c@) == orig.take(i as int).filter(keep),
                keep == (|e: CookieView| !same_key(e, key)),
                key == cookie@,
            decreases rest.len(),
        {
            let c = rest.remove(0);
            proof {
                assert(c == rest0[i as int]);
                assert(orig.take(i + 1) =~= orig.take(i as int).push(c@));
                lemma_filter_push(orig.take(i as int), c@, keep);
            }
            let same_name = string_eq(&c.name, &cookie.name);
            let same_domain = string_eq(&c.domain, &cookie.domain);
            let same_path = string_eq(&c.path, &cookie.path);
            let same = same_name && same_domain && same_path;
            assert(same == same_key(c@, key));
            if !same {
                kept.push(c);
                assert(kept@.map_values(|c: Cookie| c@) =~= orig.take(i as int).filter(keep).push(c@));
            } else {
                assert(!keep(c@));
            }
            i = i + 1;
            assert(rest@ =~= rest0.skip(i as int));
        }
        assert(orig.take(i as int) =~= orig);
        kept.push(cookie);
        self.cookies = kept;
        assert(self@ =~= orig.filter(keep).push(key));
    }

    /// Build a `Cookie:` header value for `url`, or an empty string when none
    /// apply.
    pub fn header_for(&self, url: &RequestUrl) -> (r: String)
        ensures
            r@ == header_spec(self@, url.scheme@, crate::web_url::opt_text(url.host), url.path@),
    {
        let ghost cs = self@;
        let ghost pred = |c: CookieView| cookie_matches_spec(c, url.scheme@, crate::web_url::opt_text(url.host), url.path@);
        let ghost pair = |c: CookieView| cookie_pair(c);
        let mut out = String::new();
        let mut count: usize = 0;
        let mut i: usize = 0;
        while i < self.cookies.len()
            invariant
                cs == self@,
                i <= cs.len(),
                count == cs.take(i as int).filter(pred).len(),
                out@ == join(cs.take(i as int).filter(pred).map_values(pair), seq![';', ' ']),
                pred == (|c: CookieView| cookie_matches_spec(c, url.scheme@, crate::web_url::opt_text(url.host), url.path@)),
                pair == (|c: CookieView| cookie_pair(c)),
            decreases self.cookies.len() - i,
        {
            let c = &self.cookies[i];
            proof {
                assert(cs[i as int] == c@);
                assert(cs.take(i + 1) =~= cs.take(i as int).push(c@));
                lemma_filter_push(cs.take(i as int), c@, pred);
                lemma_filter_len(cs.take(i as int), pred);
            }
            if c.matches(url) {
                let ghost before = cs.take(i as int).filter(pred).map_values(pair);
                if count > 0 {
                    push_char(&mut out, ';');
                    push_char(&mut out, ' ');
                }
                out.append(c.name.as_str());
                push_char(&mut out, '=');
                out.append(c.value.as_str());
                proof {
                    let after = cs.take(i as int).filter(pred).push(c@).map_values(pair);
                    assert(after =~= before.push(cookie_pair(c@)));
                    assert(after.drop_last() =~= before);
                }
                count = count + 1;
            }
            i = i + 1;
        }
        assert(cs.take(i as int) =~= cs);
        out
    }

    /// Look up the value of the first cookie with this name.
    pub fn value_of(&self, name: &str) -> (r: Option<&str>)
        ensures
            r matches Some(v) ==> first_named(self@, name@) matches Some(k) && v@ == self@[k].value,
            r is None ==> first_named(self@, name@) is None,
    {
        let mut i: usize = 0;
        while i < self.cookies.len()
            invariant
                i <= self@.len(),
                forall|j: int| 0 <= j < i ==> self@[j].name != name@,
            decreases self.cookies.len() - i,
        {
            if str_eq(self.cookies[i].name.as_str(), name) {
                let ghost cs = self@;
                assert(cs[i as int].name == name@);
                assert(exists|k: int| 0 <= k < cs.len() && cs[k].name == name@);
                let ghost k = choose|k: int| 0 <= k < cs.len() && cs[k].name == name@ && forall|j: int| 0 <= j < k ==> cs[j].name != name@;
                assert(k == i) by {
                    if k < i {
                        assert(cs[k].name != name@);
                    }
                    if k > i {
                        assert(cs[i as int].name != name@);
                    }
                }
                return Some(self.cookies[i].value.as_str());
            }
            i = i + 1;
        }
        None
    }

    /// Number of stored cookies, for diagnostics.
    pub fn len(&self) -> (n: usize)
        ensures
            n == self@.len(),
    {
        self.cookies.len()
    }

    /// Whether the jar holds no cookies.
    pub fn is_empty(&self) -> (b: bool)
        ensures
            b == (self@.len() == 0),
    {
        self.cookies.len() == 0
    }
}


/// One attribute segment `h[from..to]` applied to (domain, path, secure).
fn apply_attribute_exec(
    h: &[char],
    lh: &[char],
    from: usize,
    to: usize,
    domain: String,
    path: String,
    secure: bool,
) -> (r: (String, String, bool))
    requires
        from <= to <= h@.len(),
        lh@ == lower(h@),
    ensures
        (r.0@, r.1@, r.2) == apply_attribute(h@.subrange(from as int, to as int), (domain@, path@, secure)),
{
    let ghost seg = h@.subrange(from as int, to as int);
    let (a, b) = trim_range(h, from, to);
    let ghost t = h@.subrange(a as int, b as int);
    assert(trim(seg) == t);
    let (ka, kb, va, vb) = match find_char_range(h, '=', a, b) {
        Some(k) => {
            let (ka, kb) = trim_range(h, a, k);
            let (va, vb) = trim_range(h, k + 1, b);
            assert(t.take(k - a) =~= h@.subrange(a as int, k as int));
            assert(t.skip(k - a + 1) =~= h@.subrange(k + 1, b as int));
            (ka, kb, va, vb)
        },
        None => (a, b, b, b),
    };
    let ghost kv: (Seq<char>, Seq<char>) = match split_once(t, '=') {
        Some((k, v)) => (trim(k), trim(v)),
        None => (t, Seq::empty()),
    };
    assert(kv.0 == h@.subrange(ka as int, kb as int));
    assert(kv.1 =~= h@.subrange(va as int, vb as int));
    assert(lh@.subrange(ka as int, kb as int) =~= lower(h@.subrange(ka as int, kb as int)));
    let domain_lit = chars_of("domain");
    let path_lit = chars_of("path");
    let secure_lit = chars_of("secure");
    if range_eq(lh, ka, kb, &domain_lit) {
        if vb > va {
            (string_from(h, va, vb), path, secure)
        } else {
            (domain, path, secure)
        }
    } else if range_eq(lh, ka, kb, &path_lit) {
        if vb > va {
            (domain, string_from(h, va, vb), secure)
        } else {
            (domain, path, secure)
        }
    } else if range_eq(lh, ka, kb, &secure_lit) {
        (domain, path, true)
    } else {
        (domain, path, secure)
    }
}

impl CookieStore {
    /// Parse one `Set-Cookie` header value seen while talking to
    /// `request_url`.
    ///
    /// Returns `None` for malformed headers rather than failing the request.
    pub fn parse_set_cookie(header: &str, request_url: &RequestUrl) -> (r: Option<Cookie>)
        ensures
            r matches Some(c) ==> set_cookie_spec(
                header@,
                crate::web_url::opt_text(request_url.host),
                request_url.path@,
            ) == Some(c@),
            r is None ==> set_cookie_spec(
                header@,
                crate::web_url::opt_text(request_url.host),
                request_url.path@,
            ) is None,
    {
        let h = chars_of(header);
        let lh = lower_chars(&h);
        let len = h.len();
        assert(h@.subrange(0, len as int) =~= h@);
        let e = match find_char_range(&h, ';', 0, len) {
            Some(k) => k,
            None => len,
        };
        let (a, b) = trim_range(&h, 0, e);
        assert(h@.take(e as int) =~= h@.subrange(0, e as int));
        let ghost pair = h@.subrange(a as int, b as int);
        let eq = match find_char_range(&h, '=', a, b) {
            Some(k) => k,
            None => return None,
        };
        assert(pair.take(eq - a) =~= h@.subrange(a as int, eq as int));
        assert(pair.skip(eq - a + 1) =~= h@.subrange(eq + 1, b as int));
        let (na, nb) = trim_range(&h, a, eq);
        if na == nb {
            return None;
        }
        let (va, vb) = trim_range(&h, eq + 1, b);
        let mut domain = match &request_url.host {
            Some(host) => host.clone(),
            None => String::new(),
        };
        let mut path = default_path_for(request_url.path.as_str());
        let mut secure = false;
        let ghost st0 = (domain@, path@, secure);
        if e < len {
            let mut i = e + 1;
            let mut more = true;
            while more
                invariant
                    h@ == header@,
                    lh@ == lower(h@),
                    len == h@.len(),
                    e < len,
                    more ==> e + 1 <= i <= len,
                    more ==> apply_attributes(h@, e + 1, st0) == apply_attributes(h@, i as int, (domain@, path@, secure)),
                    !more ==> apply_attributes(h@, e + 1, st0) == (domain@, path@, secure),
                decreases (if more { len + 1 - i } else { 0 }),
            {
                let ghost st_before = (domain@, path@, secure);
                assert(h@.skip(i as int) =~= h@.subrange(i as int, len as int));
                let end = match find_char_range(&h, ';', i, len) {
                    Some(k) => k,
                    None => len,
                };
                let (d2, p2, s2) = apply_attribute_exec(&h, &lh, i, end, domain, path, secure);
                domain = d2;
                path = p2;
                secure = s2;
                if end < len {
                    i = end + 1;
                } else {
                    more = false;
                }
            }
        }
        if domain.as_str().is_empty() {
            return None;
        }
        let name = string_from(&h, na, nb);
        let value = string_from(&h, va, vb);
        Some(Cookie { name, value, domain, path, secure })
    }

    /// Ingest every `Set-Cookie` header value from a response, in order.
    pub fn ingest(&mut self, headers: &Vec<String>, request_url: &RequestUrl)
        ensures
            final(self)@ == ingest_spec(
                old(self)@,
                headers@.map_values(|s: String| s@),
                crate::web_url::opt_text(request_url.host),
                request_url.path@,
            ),
    {
        let ghost host = crate::web_url::opt_text(request_url.host);
        let ghost hs = headers@.map_values(|s: String| s@);
        let ghost start = self@;
        let mut i: usize = 0;
        while i < headers.len()
            invariant
                i <= headers@.len(),
                hs == headers@.map_values(|s: String| s@),
                host == crate::web_url::opt_text(request_url.host),
                self@ == ingest_spec(start, hs.take(i as int), host, request_url.path@),
            decreases headers.len() - i,
        {
            proof {
                assert(hs.take(i + 1).drop_last() =~= hs.take(i as int));
                assert(hs.take(i + 1).last() == headers@[i as int]@);
            }
            if let Some(cookie) = Self::parse_set_cookie(headers[i].as_str(), request_url) {
                self.upsert(cookie);
            }
            i = i + 1;
        }
        assert(hs.take(i as int) =~= hs);
    }
}

/// Whether two strings hold the same characters.
pub fn string_eq(a: &String, b: &String) -> (r: bool)
    ensures
        r == (a@ == b@),
{
    str_eq(a.as_str(), b.as_str())
}

/// Whether two string slices hold the same characters.
pub fn str_eq(a: &str, b: &str) -> (r: bool)
    ensures
        r == (a@ == b@),
{
    let x = chars_of(a);
    let y = chars_of(b);
    let xl = x.len();
    let yl = y.len();
    let r = ranges_eq(&x, 0, xl, &y, 0, yl);
    assert(x@.subrange(0, xl as int) =~= x@);
    assert(y@.subrange(0, yl as int) =~= y@);
    r
}

/// Length of a filtered sequence.
proof fn lemma_filter_len(s: Seq<CookieView>, p: spec_fn(CookieView) -> bool)
    ensures
        s.filter(p).len() <= s.len(),
{
    s.lemma_filter_len(p);
}

/// Default cookie path: the request directory, per RFC 6265 section 5.1.4.
pub fn default_path_for(request_path: &str) -> (r: String)
    ensures
        r@ == default_path_spec(request_path@),
{
    let p = chars_of(request_path);
    let mut slash = String::new();
    push_char(&mut slash, '/');
    assert(slash@ =~= seq!['/']);
    if !(p.len() > 0 && p[0] == '/') {
        return slash;
    }
    let pl = p.len();
    assert(p@.take(pl as int) =~= p@);
    match rfind_char_exec(&p, '/', pl) {
        Some(i) => if i == 0 {
            slash
        } else {
            string_from(&p, 0, i)
        },
        None => slash,
    }
}

/// The diagnostic text reveals nothing of a value but its length in bytes:
/// two cookies that agree in name, domain, path and `secure`, and whose values
/// have the same UTF-8 length, render the same text.
pub proof fn lemma_debug_reveals_only_length(a: CookieView, b: CookieView)
    requires
        a.name == b.name,
        a.domain == b.domain,
        a.path == b.path,
        a.secure == b.secure,
        utf8_len(a.value) == utf8_len(b.value),
    ensures
        cookie_debug_spec(a, debug_quoted(a.name), debug_quoted(a.domain), debug_quoted(a.path))
            == cookie_debug_spec(b, debug_quoted(b.name), debug_quoted(b.domain), debug_quoted(b.path)),
{
}

/// Storing a cookie replaces any cookie with the same (domain, path, name):
/// afterwards the cookie is the last entry, no other entry shares its key,
/// and every stored cookie with another key is kept.
pub proof fn lemma_upsert_replaces(cs: Seq<CookieView>, c: CookieView)
    ensures
        upsert_spec(cs, c).last() == c,
        forall|i: int|
            0 <= i < upsert_spec(cs, c).len() - 1 ==> !same_key(#[trigger] upsert_spec(cs, c)[i], c),
        forall|i: int|
            0 <= i < cs.len() && !same_key(cs[i], c) ==> #[trigger] upsert_spec(cs, c).contains(cs[i]),
{
    let keep = |e: CookieView| !same_key(e, c);
    let kept = cs.filter(keep);
    assert forall|i: int| 0 <= i < upsert_spec(cs, c).len() - 1 implies !same_key(
        #[trigger] upsert_spec(cs, c)[i],
        c,
    ) by {
        assert(upsert_spec(cs, c)[i] == kept[i]);
        cs.lemma_filter_pred(keep, i);
    }
    assert forall|i: int| 0 <= i < cs.len() && !same_key(cs[i], c) implies #[trigger] upsert_spec(
        cs,
        c,
    ).contains(cs[i]) by {
        cs.lemma_filter_contains(keep, i);
        let k = choose|k: int| 0 <= k < kept.len() && kept[k] == cs[i];
        assert(upsert_spec(cs, c)[k] == cs[i]);
    }
}

/// Storing the same cookie twice leaves the store as storing it once.
pub proof fn lemma_upsert_idempotent(cs: Seq<CookieView>, c: CookieView)
    ensures
        upsert_spec(upsert_spec(cs, c), c) == upsert_spec(cs, c),
{
    let keep = |e: CookieView| !same_key(e, c);
    let once = upsert_spec(cs, c);
    lemma_filter_push(cs.filter(keep), c, keep);
    assert(!keep(c));
    assert(cs.filter(keep).filter(keep) =~= cs.filter(keep)) by {
        lemma_filter_all(cs.filter(keep), keep);
    }
}

/// Filtering a sequence whose members all pass keeps it whole.
proof fn lemma_filter_all(s: Seq<CookieView>, p: spec_fn(CookieView) -> bool)
    requires
        forall|i: int| 0 <= i < s.len() ==> p(#[trigger] s[i]),
    ensures
        s.filter(p) == s,
    decreases s.len(),
{
    reveal(Seq::filter);
    if s.len() > 0 {
        lemma_filter_all(s.drop_last(), p);
        assert(s.drop_last().push(s.last()) =~= s);
    } else {
        assert(s.filter(p) =~= s);
    }
}

/// A stored cookie is sent with every request it matches: after storing it,
/// the `Cookie:` header for such a request ends with its `name=value`.
pub proof fn lemma_stored_cookie_is_sent(
    cs: Seq<CookieView>,
    c: CookieView,
    scheme: Seq<char>,
    host: Option<Seq<char>>,
    path: Seq<char>,
)
    requires
        cookie_matches_spec(c, scheme, host, path),
    ensures
        ends_with(header_spec(upsert_spec(cs, c), scheme, host, path), cookie_pair(c)),
{
    let keep = |e: CookieView| !same_key(e, c);
    let p = |e: CookieView| cookie_matches_spec(e, scheme, host, path);
    let pair = |e: CookieView| cookie_pair(e);
    let kept = cs.filter(keep);
    lemma_filter_push(kept, c, p);
    let sent = kept.filter(p).push(c);
    let parts = sent.map_values(pair);
    assert(parts =~= kept.filter(p).map_values(pair).push(cookie_pair(c)));
    let h = join(parts, seq![';', ' ']);
    if parts.len() == 1 {
        assert(h == cookie_pair(c));
        assert(h.subrange(h.len() - cookie_pair(c).len(), h.len() as int) =~= cookie_pair(c));
    } else {
        assert(parts.drop_last() =~= kept.filter(p).map_values(pair));
        assert(parts.last() == cookie_pair(c));
        let front = join(parts.drop_last(), seq![';', ' ']) + seq![';', ' '];
        assert(h == front + cookie_pair(c));
        assert(h.subrange(h.len() - cookie_pair(c).len(), h.len() as int) =~= cookie_pair(c));
    }
}

} // verus!
