//! Authentication: a supplied session cookie, or the full NAM/Domino SSO
//! chain.
//!
//! The caller performs each request the chain asks for and reports the page
//! that came back; which request comes next, with which fields, and when the
//! chain has failed, is decided here.

use vstd::prelude::*;

use crate::cookie::{
    cookie_matches_spec, cookie_pair, header_spec, host_matches_spec, same_key, upsert_spec, Cookie,
    CookieStore, CookieView,
};
use crate::error::AppError;
use crate::html::{
    first_form_action, first_form_action_spec, form_action_containing, form_action_from,
    input_value_for, input_value_spec, lemma_find_relative, lemma_find_relative_none,
    script_redirect, script_redirect_spec,
};
use crate::text::{
    chars_of, contains, debug_quoted, ends_with, find, find_char_from, find_char_range,
    find_from_exec, lower, push_str, quote_debug, split_once, string_from, trim, trim_range,
};
use crate::web_url::{resolve_against, url_resolved};

verus! {

/// Cookie domain covering every host this client talks to.
pub const UNIVERSITY_DOMAIN: &'static str = ".hkmu.edu.hk";

/// Marker identifying the Domino silent-SSO bridge form.
pub const SILENT_SSO_MARKER: &'static str = "nov-ss-ff-silent";

/// The user field the NAM credential form names.
pub const NAM_USER_FIELD: &'static str = "Ecom_User_ID";

/// The password field the NAM credential form names.
pub const NAM_PASSWORD_FIELD: &'static str = "Ecom_Password";

/// Resolve a possibly-relative URL against a base.
pub fn absolute(base: &str, reference: &str) -> (r: Result<String, AppError>)
    ensures
        match url_resolved(base@, reference@) {
            Ok(s) => r matches Ok(t) && t@ == s,
            Err(e) => r matches Err(AppError::Url(m)) && m@ == e,
        },
{
    match resolve_against(base, reference) {
        Ok(s) => Ok(s),
        Err(e) => Err(AppError::Url(e)),
    }
}

/// The pieces of `s` between occurrences of `sep` (`str::split`).
pub open spec fn split_pieces(s: Seq<char>, sep: char) -> Seq<Seq<char>>
    decreases s.len(),
{
    match find(s, seq![sep]) {
        Some(i) => if 0 <= i < s.len() {
            seq![s.take(i)] + split_pieces(s.skip(i + 1), sep)
        } else {
            seq![s]
        },
        None => seq![s],
    }
}

/// What one `;`-separated entry of a `Cookie:` header contributes: nothing
/// when blank, a cookie for the whole university when it is `name=value`,
/// else the refusal's message.
pub open spec fn seed_entry(entry: Seq<char>) -> Option<Result<CookieView, Seq<char>>> {
    let e = trim(entry);
    if e.len() == 0 {
        None
    } else {
        match split_once(e, '=') {
            None => Some(Err("SESSION_COOKIE entry "@ + debug_quoted(e) + " is not name=value"@)),
            Some((n, v)) => Some(
                Ok(
                    CookieView {
                        name: trim(n),
                        value: trim(v),
                        domain: UNIVERSITY_DOMAIN@,
                        path: "/"@,
                        secure: false,
                    },
                ),
            ),
        }
    }
}

/// The jar the entries seed into `store`, and whether any cookie was seeded;
/// the first malformed entry's message otherwise.
pub open spec fn seed_spec(store: Seq<CookieView>, any: bool, entries: Seq<Seq<char>>) -> Result<
    (Seq<CookieView>, bool),
    Seq<char>,
>
    decreases entries.len(),
{
    if entries.len() == 0 {
        Ok((store, any))
    } else {
        match seed_entry(entries[0]) {
            None => seed_spec(store, any, entries.drop_first()),
            Some(Err(m)) => Err(m),
            Some(Ok(c)) => seed_spec(upsert_spec(store, c), true, entries.drop_first()),
        }
    }
}

/// Seed a cookie jar from a raw `Cookie:` header value.
///
/// Every `name=value` entry becomes a cookie for every university host; blank
/// entries are skipped. An entry without `=`, or a header with no cookie at
/// all, is refused.
pub fn seed_cookies(raw: &str) -> (r: Result<CookieStore, AppError>)
    ensures
        match seed_spec(Seq::empty(), false, split_pieces(raw@, ';')) {
            Err(m) => r matches Err(AppError::Config(s)) && s@ == m,
            Ok((cs, any)) => if any {
                r matches Ok(store) && store@ == cs
            } else {
                r matches Err(AppError::Config(s)) && s@ == "SESSION_COOKIE contained no cookies"@
            },
        },
{
    let h = chars_of(raw);
    let n = h.len();
    let mut store = CookieStore::new();
    let mut any = false;
    let mut cursor: usize = 0;
    assert(h@.skip(0) =~= h@);
    loop
        invariant_except_break
            seed_spec(Seq::empty(), false, split_pieces(raw@, ';')) == seed_spec(
                store@,
                any,
                split_pieces(h@.skip(cursor as int), ';'),
            ),
        invariant
            cursor <= n,
            n == h@.len(),
            h@ == raw@,
        ensures
            seed_spec(Seq::empty(), false, split_pieces(raw@, ';')) == Ok::<
                (Seq<CookieView>, bool),
                Seq<char>,
            >((store@, any)),
        decreases n - cursor,
    {
        let ghost rest = h@.skip(cursor as int);
        let end = match find_char_from(h.as_slice(), ';', cursor) {
            Some(k) => {
                proof {
                    lemma_find_relative(h@, seq![';'], cursor as int, k as int);
                    assert(rest.take(k - cursor) =~= h@.subrange(cursor as int, k as int));
                    assert(rest.skip(k - cursor + 1) =~= h@.skip(k + 1));
                }
                k
            },
            None => {
                proof {
                    lemma_find_relative_none(h@, seq![';'], cursor as int);
                    assert(rest =~= h@.subrange(cursor as int, n as int));
                }
                n
            },
        };
        let ghost entry = h@.subrange(cursor as int, end as int);
        assert(split_pieces(rest, ';')[0] == entry);
        assert(split_pieces(rest, ';').drop_first() == (if end < n {
            split_pieces(h@.skip(end + 1), ';')
        } else {
            Seq::empty()
        })) by {
            if end < n {
                assert(split_pieces(rest, ';') =~= seq![entry] + split_pieces(h@.skip(end + 1), ';'));
            } else {
                assert(split_pieces(rest, ';') =~= seq![entry]);
            }
        }
        let (a, b) = trim_range(h.as_slice(), cursor, end);
        if a < b {
            let ghost e = h@.subrange(a as int, b as int);
            match find_char_range(h.as_slice(), '=', a, b) {
                None => {
                    let entry_text = string_from(h.as_slice(), a, b);
                    let mut m = "SESSION_COOKIE entry ".to_string();
                    push_str(&mut m, quote_debug(entry_text.as_str()).as_str());
                    push_str(&mut m, " is not name=value");
                    assert(split_once(e, '=') is None);
                    return Err(AppError::Config(m));
                },
                Some(eq) => {
                    let (na, nb) = trim_range(h.as_slice(), a, eq);
                    let (va, vb) = trim_range(h.as_slice(), eq + 1, b);
                    proof {
                        assert(e.take(eq - a) =~= h@.subrange(a as int, eq as int));
                        assert(e.skip(eq - a + 1) =~= h@.subrange(eq + 1, b as int));
                        reveal_strlit("/");
                    }
                    let cookie = Cookie {
                        name: string_from(h.as_slice(), na, nb),
                        value: string_from(h.as_slice(), va, vb),
                        domain: UNIVERSITY_DOMAIN.to_string(),
                        path: "/".to_string(),
                        secure: false,
                    };
                    assert(seed_entry(entry) == Some(Ok::<CookieView, Seq<char>>(cookie@)));
                    store.upsert(cookie);
                    any = true;
                },
            }
        }
        if end >= n {
            proof {
                assert(seed_spec(store@, any, Seq::empty()) == Ok::<
                    (Seq<CookieView>, bool),
                    Seq<char>,
                >((store@, any)));
            }
            break;
        }
        cursor = end + 1;
    }
    if !any {
        return Err(AppError::Config("SESSION_COOKIE contained no cookies".to_string()));
    }
    Ok(store)
}

/// The verdict on a session seeded from `SESSION_COOKIE`, once the OLE API
/// has been asked whether it accepts it.
pub fn cookie_verdict(accepted: bool) -> (r: Result<(), AppError>)
    ensures
        accepted ==> r is Ok,
        !accepted ==> (r matches Err(AppError::SessionRejected(m)) && m@
            == "OLE rejected SESSION_COOKIE: refresh it from a logged-in browser"@),
{
    if accepted {
        Ok(())
    } else {
        Err(
            AppError::SessionRejected(
                "OLE rejected SESSION_COOKIE: refresh it from a logged-in browser".to_string(),
            ),
        )
    }
}

/// Where the SSO chain stands: which page it waits for.
#[derive(Debug, Clone, Copy, PartialEq, Eq, Structural)]
pub enum SsoStage {
    /// The portal's landing page.
    Landing,
    /// The NAM answer to the credential post.
    Credentials,
    /// The SAML assertion page.
    Assertion,
    /// The Domino bridge page.
    Bridge,
    /// The dashboard after the Domino login.
    Dashboard,
    /// The OLE API's verdict on the session.
    Validation,
    /// The chain has ended.
    Finished,
}

/// What the chain asks for next.
pub enum SsoAction {
    /// GET this URL and report the page.
    Get(String),
    /// POST these form fields to this URL and report the page.
    Post(String, Vec<(String, String)>),
    /// Ask the OLE API whether it accepts the session, and report the verdict;
    /// `looks_signed_in` says whether the dashboard showed its markers.
    Validate {
        /// Whether the dashboard carried `myOLE` or `Welcome`.
        looks_signed_in: bool,
    },
    /// The chain has ended, with this result.
    Done(Result<(), AppError>),
}

/// Form fields as plain values.
pub open spec fn fields_view(v: Seq<(String, String)>) -> Seq<(Seq<char>, Seq<char>)> {
    v.map_values(|f: (String, String)| (f.0@, f.1@))
}

/// The credential post's fields.
pub open spec fn credential_fields(student_id: Seq<char>, password: Seq<char>) -> Seq<
    (Seq<char>, Seq<char>),
> {
    seq![
        ("option"@, "credential"@),
        (NAM_USER_FIELD@, student_id),
        (NAM_PASSWORD_FIELD@, password),
        ("loginButton2"@, "Login"@),
    ]
}

/// The Domino bridge post's fields.
pub open spec fn bridge_fields() -> Seq<(Seq<char>, Seq<char>)> {
    seq![("%%ModDate"@, "0000000000000000"@), ("RedirectTo"@, "/OLEhome.nsf/OLEHome?ReadForm"@)]
}

/// The Domino login post's fields.
pub open spec fn login_fields(user: Seq<char>, password: Seq<char>) -> Seq<(Seq<char>, Seq<char>)> {
    seq![
        ("%%ModDate"@, "0000000000000000"@),
        ("RedirectTo"@, "/OLEhome.nsf/OLEhome?ReadForm"@),
        ("Username"@, user),
        ("Password"@, password),
    ]
}

/// The form action of the bridge: the silent-SSO form's, else the first
/// form's.
pub open spec fn bridge_action_spec(page: Seq<char>) -> Option<Seq<char>> {
    match form_action_from(page, SILENT_SSO_MARKER@, 0) {
        Some(a) => Some(a),
        None => first_form_action_spec(page),
    }
}

/// A failure of the chain with this message.
pub open spec fn auth_failure(a: SsoAction, message: Seq<char>) -> bool {
    a matches SsoAction::Done(Err(AppError::Auth(m))) && m@ == message
}

/// The NAM/Domino SSO chain, driven with a username and password.
pub struct SsoFlow {
    stage: SsoStage,
    ole_url: String,
    nam_login_url: String,
    student_id: String,
    password: String,
}

/// A pair of form strings.
fn field(name: &str, value: &str) -> (f: (String, String))
    ensures
        f.0@ == name@,
        f.1@ == value@,
{
    (name.to_string(), value.to_string())
}

impl SsoFlow {
    /// The page the chain waits for.
    pub closed spec fn stage_of(&self) -> SsoStage {
        self.stage
    }

    /// The portal base URL.
    pub closed spec fn ole_url_of(&self) -> Seq<char> {
        self.ole_url@
    }

    /// The NAM credential endpoint.
    pub closed spec fn nam_login_url_of(&self) -> Seq<char> {
        self.nam_login_url@
    }

    /// The student identifier the credential post carries.
    pub closed spec fn student_id_of(&self) -> Seq<char> {
        self.student_id@
    }

    /// The password the credential post carries.
    pub closed spec fn password_of(&self) -> Seq<char> {
        self.password@
    }

    /// Begin the chain: fetch the portal's landing page.
    pub fn start(ole_url: &str, nam_login_url: &str, student_id: &str, password: &str) -> (r: (
        SsoFlow,
        SsoAction,
    ))
        ensures
            r.0.stage_of() == SsoStage::Landing,
            r.0.ole_url_of() == ole_url@,
            r.0.nam_login_url_of() == nam_login_url@,
            r.0.student_id_of() == student_id@,
            r.0.password_of() == password@,
            r.1 matches SsoAction::Get(u) && u@ == ole_url@,
    {
        let flow = SsoFlow {
            stage: SsoStage::Landing,
            ole_url: ole_url.to_string(),
            nam_login_url: nam_login_url.to_string(),
            student_id: student_id.to_string(),
            password: password.to_string(),
        };
        (flow, SsoAction::Get(ole_url.to_string()))
    }

    /// Take in the page the last request returned and decide the next step.
    ///
    /// The landing page leads to the credential post; its answer must carry
    /// the post-login redirect, which is followed; the assertion page must
    /// expose the Domino bridge form, which is posted; the bridge page must
    /// carry the Domino username, password and login action, which are posted;
    /// the dashboard leads to validating the session. A missing marker ends
    /// the chain with the failure it names.
    pub fn on_page(&mut self, page: &str) -> (r: SsoAction)
        requires
            old(self).stage_of() != SsoStage::Validation,
            old(self).stage_of() != SsoStage::Finished,
        ensures
            final(self).ole_url_of() == old(self).ole_url_of(),
            final(self).nam_login_url_of() == old(self).nam_login_url_of(),
            final(self).student_id_of() == old(self).student_id_of(),
            final(self).password_of() == old(self).password_of(),
            old(self).stage_of() == SsoStage::Landing ==> (final(self).stage_of()
                == SsoStage::Credentials && (r matches SsoAction::Post(u, f) && u@
                == old(self).nam_login_url_of() && fields_view(f@) == credential_fields(
                old(self).student_id_of(),
                old(self).password_of(),
            ))),
            old(self).stage_of() == SsoStage::Credentials ==> match script_redirect_spec(page@) {
                None => final(self).stage_of() == SsoStage::Finished && auth_failure(
                    r,
                    "NAM did not return a post-login redirect; password may be wrong"@,
                ),
                Some(u) => final(self).stage_of() == SsoStage::Assertion && (r matches SsoAction::Get(
                    g,
                ) && g@ == u),
            },
            old(self).stage_of() == SsoStage::Assertion ==> match bridge_action_spec(page@) {
                None => final(self).stage_of() == SsoStage::Finished && auth_failure(
                    r,
                    "OLE landing page exposed no Domino login form"@,
                ),
                Some(action) => match url_resolved(old(self).ole_url_of(), action) {
                    Err(e) => final(self).stage_of() == SsoStage::Finished && (r matches SsoAction::Done(
                        Err(AppError::Url(m)),
                    ) && m@ == e),
                    Ok(u) => final(self).stage_of() == SsoStage::Bridge && (r matches SsoAction::Post(
                        p,
                        f,
                    ) && p@ == u && fields_view(f@) == bridge_fields()),
                },
            },
            old(self).stage_of() == SsoStage::Bridge ==> match (
                input_value_spec(page@, "Username"@),
                input_value_spec(page@, "Password"@),
                form_action_from(page@, "names.nsf"@, 0),
            ) {
                (None, _, _) => final(self).stage_of() == SsoStage::Finished && auth_failure(
                    r,
                    "Domino bridge page carried no username field"@,
                ),
                (Some(_), None, _) => final(self).stage_of() == SsoStage::Finished && auth_failure(
                    r,
                    "Domino bridge page carried no password field"@,
                ),
                (Some(_), Some(_), None) => final(self).stage_of() == SsoStage::Finished
                    && auth_failure(r, "Domino bridge page carried no login action"@),
                (Some(user), Some(pw), Some(action)) => match url_resolved(
                    old(self).ole_url_of(),
                    action,
                ) {
                    Err(e) => final(self).stage_of() == SsoStage::Finished && (r matches SsoAction::Done(
                        Err(AppError::Url(m)),
                    ) && m@ == e),
                    Ok(u) => final(self).stage_of() == SsoStage::Dashboard && (r matches SsoAction::Post(
                        p,
                        f,
                    ) && p@ == u && fields_view(f@) == login_fields(user, pw)),
                },
            },
            old(self).stage_of() == SsoStage::Dashboard ==> (final(self).stage_of()
                == SsoStage::Validation && r == SsoAction::Validate {
                looks_signed_in: contains(page@, "myOLE"@) || contains(page@, "Welcome"@),
            }),
    {
        match self.stage {
            SsoStage::Landing => {
                self.stage = SsoStage::Credentials;
                let mut f: Vec<(String, String)> = Vec::new();
                f.push(field("option", "credential"));
                f.push(field(NAM_USER_FIELD, self.student_id.as_str()));
                f.push(field(NAM_PASSWORD_FIELD, self.password.as_str()));
                f.push(field("loginButton2", "Login"));
                assert(fields_view(f@) =~= credential_fields(self.student_id@, self.password@));
                SsoAction::Post(self.nam_login_url.clone(), f)
            },
            SsoStage::Credentials => match script_redirect(page) {
                None => {
                    self.stage = SsoStage::Finished;
                    SsoAction::Done(
                        Err(
                            AppError::Auth(
                                "NAM did not return a post-login redirect; password may be wrong".to_string(),
                            ),
                        ),
                    )
                },
                Some(u) => {
                    self.stage = SsoStage::Assertion;
                    SsoAction::Get(u)
                },
            },
            SsoStage::Assertion => {
                let action = match form_action_containing(page, SILENT_SSO_MARKER) {
                    Some(a) => a,
                    None => match first_form_action(page) {
                        Some(a) => a,
                        None => {
                            self.stage = SsoStage::Finished;
                            return SsoAction::Done(
                                Err(
                                    AppError::Auth(
                                        "OLE landing page exposed no Domino login form".to_string(),
                                    ),
                                ),
                            );
                        },
                    },
                };
                match absolute(self.ole_url.as_str(), action.as_str()) {
                    Err(e) => {
                        self.stage = SsoStage::Finished;
                        SsoAction::Done(Err(e))
                    },
                    Ok(u) => {
                        self.stage = SsoStage::Bridge;
                        let mut f: Vec<(String, String)> = Vec::new();
                        f.push(field("%%ModDate", "0000000000000000"));
                        f.push(field("RedirectTo", "/OLEhome.nsf/OLEHome?ReadForm"));
                        assert(fields_view(f@) =~= bridge_fields());
                        SsoAction::Post(u, f)
                    },
                }
            },
            SsoStage::Bridge => {
                let user = match input_value_for(page, "Username") {
                    Some(u) => u,
                    None => {
                        self.stage = SsoStage::Finished;
                        return SsoAction::Done(
                            Err(
                                AppError::Auth(
                                    "Domino bridge page carried no username field".to_string(),
                                ),
                            ),
                        );
                    },
                };
                let pw = match input_value_for(page, "Password") {
                    Some(p) => p,
                    None => {
                        self.stage = SsoStage::Finished;
                        return SsoAction::Done(
                            Err(
                                AppError::Auth(
                                    "Domino bridge page carried no password field".to_string(),
                                ),
                            ),
                        );
                    },
                };
                let action = match form_action_containing(page, "names.nsf") {
                    Some(a) => a,
                    None => {
                        self.stage = SsoStage::Finished;
                        return SsoAction::Done(
                            Err(
                                AppError::Auth(
                                    "Domino bridge page carried no login action".to_string(),
                                ),
                            ),
                        );
                    },
                };
                match absolute(self.ole_url.as_str(), action.as_str()) {
                    Err(e) => {
                        self.stage = SsoStage::Finished;
                        SsoAction::Done(Err(e))
                    },
                    Ok(u) => {
                        self.stage = SsoStage::Dashboard;
                        let mut f: Vec<(String, String)> = Vec::new();
                        f.push(field("%%ModDate", "0000000000000000"));
                        f.push(field("RedirectTo", "/OLEhome.nsf/OLEhome?ReadForm"));
                        f.push(field("Username", user.as_str()));
                        f.push(field("Password", pw.as_str()));
                        assert(fields_view(f@) =~= login_fields(user@, pw@));
                        SsoAction::Post(u, f)
                    },
                }
            },
            _ => {
                self.stage = SsoStage::Validation;
                let h = chars_of(page);
                let my = chars_of("myOLE");
                let welcome = chars_of("Welcome");
                let a = match find_from_exec(h.as_slice(), my.as_slice(), 0) {
                    Some(_) => true,
                    None => false,
                };
                let b = match find_from_exec(h.as_slice(), welcome.as_slice(), 0) {
                    Some(_) => true,
                    None => false,
                };
                SsoAction::Validate { looks_signed_in: a || b }
            },
        }
    }

    /// Take in the OLE API's verdict on the session and end the chain.
    pub fn on_validated(&mut self, accepted: bool) -> (r: SsoAction)
        requires
            old(self).stage_of() == SsoStage::Validation,
        ensures
            final(self).stage_of() == SsoStage::Finished,
            accepted ==> r matches SsoAction::Done(Ok(())),
            !accepted ==> auth_failure(
                r,
                "SSO chain completed but the OLE API still rejected the session"@,
            ),
    {
        self.stage = SsoStage::Finished;
        if accepted {
            SsoAction::Done(Ok(()))
        } else {
            SsoAction::Done(
                Err(
                    AppError::Auth(
                        "SSO chain completed but the OLE API still rejected the session".to_string(),
                    ),
                ),
            )
        }
    }
}

/// Every cookie in the jar belongs to the university domain.
pub open spec fn all_university(cs: Seq<CookieView>) -> bool {
    forall|i: int| 0 <= i < cs.len() ==> (#[trigger] cs[i]).domain == UNIVERSITY_DOMAIN@
}

/// Seeding keeps every cookie on the university domain.
proof fn lemma_seed_domains(store: Seq<CookieView>, any: bool, entries: Seq<Seq<char>>)
    requires
        all_university(store),
    ensures
        seed_spec(store, any, entries) matches Ok((cs, _)) ==> all_university(cs),
    decreases entries.len(),
{
    if entries.len() > 0 {
        match seed_entry(entries[0]) {
            None => lemma_seed_domains(store, any, entries.drop_first()),
            Some(Err(_)) => {},
            Some(Ok(c)) => {
                let keep = |e: CookieView| !same_key(e, c);
                let next = upsert_spec(store, c);
                assert forall|i: int| 0 <= i < next.len() implies (#[trigger] next[i]).domain
                    == UNIVERSITY_DOMAIN@ by {
                    if i < next.len() - 1 {
                        let kept = store.filter(keep);
                        assert(next[i] == kept[i]);
                        assert(kept.contains(kept[i]));
                        store.lemma_filter_contains_rev(keep, kept[i]);
                    }
                }
                lemma_seed_domains(next, true, entries.drop_first());
            },
        }
    }
}

/// A filter that nothing passes is empty.
proof fn lemma_filter_none(s: Seq<CookieView>, p: spec_fn(CookieView) -> bool)
    requires
        forall|i: int| 0 <= i < s.len() ==> !p(#[trigger] s[i]),
    ensures
        s.filter(p).len() == 0,
    decreases s.len(),
{
    reveal(Seq::filter);
    if s.len() > 0 {
        lemma_filter_none(s.drop_last(), p);
    }
}

/// A jar seeded from `SESSION_COOKIE` sends its cookies to university hosts
/// only: for a host that is neither `hkmu.edu.hk` nor under it, the `Cookie:`
/// header is empty, whatever the scheme and path.
pub proof fn lemma_seeded_cookies_stay_home(
    raw: Seq<char>,
    scheme: Seq<char>,
    host: Seq<char>,
    path: Seq<char>,
)
    requires
        lower(host) != "hkmu.edu.hk"@,
        !ends_with(lower(host), UNIVERSITY_DOMAIN@),
    ensures
        seed_spec(Seq::empty(), false, split_pieces(raw, ';')) matches Ok((cs, _)) ==> header_spec(
            cs,
            scheme,
            Some(host),
            path,
        ) == Seq::<char>::empty(),
{
    assert(all_university(Seq::empty()));
    lemma_seed_domains(Seq::empty(), false, split_pieces(raw, ';'));
    if let Ok((cs, _)) = seed_spec(Seq::empty(), false, split_pieces(raw, ';')) {
        let d = UNIVERSITY_DOMAIN@;
        reveal_strlit(".hkmu.edu.hk");
        reveal_strlit("hkmu.edu.hk");
        assert(lower(d) =~= d);
        assert(d.skip(1) =~= "hkmu.edu.hk"@);
        let p = |c: CookieView| cookie_matches_spec(c, scheme, Some(host), path);
        assert forall|i: int| 0 <= i < cs.len() implies !p(#[trigger] cs[i]) by {
            assert(cs[i].domain == d);
            assert(!host_matches_spec(host, d));
        }
        lemma_filter_none(cs, p);
        assert(cs.filter(p).map_values(|c: CookieView| cookie_pair(c)) =~= Seq::<Seq<char>>::empty());
    }
}

} // verus!
