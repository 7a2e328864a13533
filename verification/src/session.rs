//! One logical HTTP request of the session: which requests it sends, which
//! redirects it follows, and how it ends.
//!
//! The caller sends each prepared request and reports the answer; the cookie
//! jar is read for every request and fed from every answer.

use vstd::prelude::*;

use crate::cookie::{header_spec, ingest_spec, CookieStore};
use crate::error::AppError;
use crate::text::{
    chars_of, ends_with, lower, lower_chars, nat_digits, nat_text_exec, push_str, range_eq,
};
use crate::web_url::{opt_text, resolve_against, url_components, url_resolved, RequestUrl};

verus! {

/// A browser-like User-Agent; the OLE front ends reject some default clients.
pub const USER_AGENT: &'static str = "Mozilla/5.0 (Linux; Android 16; Pixel 10) AppleWebKit/537.36 (KHTML, like Gecko) Chrome/153.0.0.0 Mobile Safari/537.36";

/// The only hosts this client will follow a redirect to: the university's.
///
/// The login chain is entirely within the university, and a redirect target
/// comes from server-supplied HTML, so following it anywhere else would let a
/// compromised page or a hostile intermediary point the client at its own host.
pub const ALLOWED_REDIRECT_SUFFIX: &'static str = ".hkmu.edu.hk";

/// The most requests one logical request may take, redirects included.
pub const MAX_REDIRECTS: usize = 12;

/// Seconds before a request times out.
pub const TIMEOUT_SECS: u64 = 30;

/// Whether a redirect target stays within the university: its host, lower
/// cased, is `hkmu.edu.hk` or ends with `.hkmu.edu.hk`.
pub open spec fn is_allowed_host_spec(target: Seq<char>) -> bool {
    match url_components(target) {
        Ok((_, Some(host), _, _)) => ends_with(lower(host), ALLOWED_REDIRECT_SUFFIX@) || lower(host)
            == "hkmu.edu.hk"@,
        _ => false,
    }
}

/// Whether a redirect target stays within the allowed university hosts.
pub fn is_allowed_host(target: &str) -> (b: bool)
    ensures
        b == is_allowed_host_spec(target@),
{
    let url = match RequestUrl::parse(target) {
        Ok(u) => u,
        Err(_) => {
            return false;
        },
    };
    let host = match &url.host {
        Some(h) => h,
        None => {
            return false;
        },
    };
    let raw = chars_of(host.as_str());
    let h = lower_chars(raw.as_slice());
    let suffix = chars_of(ALLOWED_REDIRECT_SUFFIX);
    let bare = chars_of("hkmu.edu.hk");
    let n = h.len();
    let m = suffix.len();
    let ends = n >= m && range_eq(h.as_slice(), n - m, n, suffix.as_slice());
    let equal = range_eq(h.as_slice(), 0, n, bare.as_slice());
    assert(h@.subrange(0, n as int) =~= h@);
    ends || equal
}

/// The method of a request.
#[derive(Debug, Clone, Copy, PartialEq, Eq, Structural)]
pub enum Method {
    /// `GET`.
    Get,
    /// `POST` with a form body.
    Post,
}

/// One request to send.
pub struct PreparedRequest {
    /// The method.
    pub method: Method,
    /// Where to send it.
    pub url: RequestUrl,
    /// The `Cookie:` header, when the jar has cookies for the URL.
    pub cookie_header: Option<String>,
    /// Whether to mark it as an `XMLHttpRequest`.
    pub xhr: bool,
    /// The form fields to send as the body.
    pub form: Option<Vec<(String, String)>>,
}

/// The `Location` header of an answer: absent, not valid UTF-8, or its text.
pub enum Location {
    /// The answer carried no `Location`.
    Missing,
    /// The header's bytes are not UTF-8.
    NotText,
    /// The header's value.
    Text(String),
}

/// What follows an answer.
pub enum Hop {
    /// Send the next request: a redirect is being followed.
    Follow,
    /// Read the body of this answer and hand it to [`Redirects::deliver`].
    Read,
    /// The request failed.
    Fail(AppError),
}

/// The progress of one logical request through its redirects.
pub struct Redirects {
    /// The URL first requested.
    pub requested: String,
    /// The URL the next request goes to.
    pub next: String,
    /// The method of the next request.
    pub method: Method,
    /// The form, until it has been sent.
    pub form: Option<Vec<(String, String)>>,
    /// Whether every request carries the XHR marker.
    pub xhr: bool,
    /// Requests prepared so far.
    pub sent: usize,
}

/// The message of a chain that ran out of hops.
pub open spec fn exhausted_message(requested: Seq<char>) -> Seq<char> {
    "redirect chain from "@ + requested + " exceeded "@ + nat_digits(MAX_REDIRECTS as nat) + " hops"@
}

/// The message of a redirect off the university's hosts.
pub open spec fn off_domain_message(requested: Seq<char>, target: Seq<char>) -> Seq<char> {
    requested + " redirected off the university domain, to "@ + target
}

/// Whether a status is a redirection (`3xx`).
pub open spec fn is_redirection(status: u16) -> bool {
    300 <= status <= 399
}

/// Whether a status is a success (`2xx`).
pub open spec fn is_success_status(status: u16) -> bool {
    200 <= status <= 299
}

impl Redirects {
    /// Begin a request to `url` with `method`, sending `form` with the first
    /// request only.
    pub fn new(method: Method, url: &str, form: Option<Vec<(String, String)>>, xhr: bool) -> (r:
        Redirects)
        ensures
            r.requested@ == url@,
            r.next@ == url@,
            r.method == method,
            r.form == form,
            r.xhr == xhr,
            r.sent == 0,
    {
        Redirects { requested: url.to_string(), next: url.to_string(), method, form, xhr, sent: 0 }
    }

    /// The next request to send, with the jar's cookies for its URL; or the
    /// error that ends the chain: too many hops, or a URL that does not parse.
    pub fn prepare(&mut self, cookies: &CookieStore) -> (r: Result<PreparedRequest, AppError>)
        ensures
            old(self).sent >= MAX_REDIRECTS ==> (r matches Err(AppError::Auth(m)) && m@
                == exhausted_message(old(self).requested@) && *final(self) == *old(self)),
            old(self).sent < MAX_REDIRECTS ==> match url_components(old(self).next@) {
                Err(e) => r matches Err(AppError::Url(m)) && m@ == e,
                Ok(parts) => r matches Ok(p) && p.url.parts() == parts && p.method == old(self).method
                    && p.xhr == old(self).xhr && p.form == old(self).form && final(self).form is None
                    && final(self).sent == old(self).sent + 1 && final(self).next == old(self).next
                    && final(self).requested == old(self).requested && final(self).method == old(
                    self,
                ).method && final(self).xhr == old(self).xhr && (match p.cookie_header {
                    Some(h) => h@ == header_spec(cookies@, parts.0, parts.1, parts.2) && h@.len() > 0,
                    None => header_spec(cookies@, parts.0, parts.1, parts.2).len() == 0,
                }),
            },
    {
        if self.sent >= MAX_REDIRECTS {
            let mut m = "redirect chain from ".to_string();
            push_str(&mut m, self.requested.as_str());
            push_str(&mut m, " exceeded ");
            push_str(&mut m, nat_text_exec(MAX_REDIRECTS as u64).as_str());
            push_str(&mut m, " hops");
            return Err(AppError::Auth(m));
        }
        let url = match RequestUrl::parse(self.next.as_str()) {
            Ok(u) => u,
            Err(e) => {
                return Err(AppError::Url(e));
            },
        };
        let header = cookies.header_for(&url);
        let cookie_header = if header.as_str().is_empty() {
            None
        } else {
            Some(header)
        };
        let mut form = None;
        std::mem::swap(&mut form, &mut self.form);
        self.sent = self.sent + 1;
        Ok(PreparedRequest { method: self.method, url, cookie_header, xhr: self.xhr, form })
    }

    /// Take in the answer to the request sent to `request_url`: store the
    /// cookies it sets, then follow a redirect to a university host, or read
    /// the body of any other answer.
    ///
    /// A redirect is resolved against the URL that answered; one without a
    /// usable `Location`, or to a host outside the university, fails the
    /// request. A followed redirect is requested with `GET`.
    pub fn on_answer(
        &mut self,
        cookies: &mut CookieStore,
        request_url: &RequestUrl,
        status: u16,
        set_cookies: &Vec<String>,
        location: Location,
    ) -> (r: Hop)
        ensures
            final(cookies)@ == ingest_spec(
                old(cookies)@,
                set_cookies@.map_values(|s: String| s@),
                opt_text(request_url.host),
                request_url.path@,
            ),
            !is_redirection(status) ==> r is Read && *final(self) == *old(self),
            is_redirection(status) ==> match location {
                Location::Missing => r matches Hop::Fail(AppError::Auth(m)) && m@ == "redirect from "@
                    + request_url.serialized@ + " carried no Location"@,
                Location::NotText => r matches Hop::Fail(AppError::Auth(m)) && m@
                    == "Location header was not valid UTF-8"@,
                Location::Text(l) => match url_resolved(request_url.serialized@, l@) {
                    Err(e) => r matches Hop::Fail(AppError::Url(m)) && m@ == e,
                    Ok(target) => if is_allowed_host_spec(target) {
                        r is Follow && final(self).next@ == target && final(self).method == Method::Get
                            && final(self).sent == old(self).sent && final(self).requested
                            == old(self).requested && final(self).form == old(self).form
                            && final(self).xhr == old(self).xhr
                    } else {
                        r matches Hop::Fail(AppError::Auth(m)) && m@ == off_domain_message(
                            old(self).requested@,
                            target,
                        )
                    },
                },
            },
    {
        cookies.ingest(set_cookies, request_url);
        if !(300 <= status && status <= 399) {
            return Hop::Read;
        }
        let location = match location {
            Location::Missing => {
                let mut m = "redirect from ".to_string();
                push_str(&mut m, request_url.serialized.as_str());
                push_str(&mut m, " carried no Location");
                return Hop::Fail(AppError::Auth(m));
            },
            Location::NotText => {
                return Hop::Fail(AppError::Auth("Location header was not valid UTF-8".to_string()));
            },
            Location::Text(l) => l,
        };
        let target = match resolve_against(request_url.serialized.as_str(), location.as_str()) {
            Ok(t) => t,
            Err(e) => {
                return Hop::Fail(AppError::Url(e));
            },
        };
        if !is_allowed_host(target.as_str()) {
            let mut m = self.requested.clone();
            push_str(&mut m, " redirected off the university domain, to ");
            push_str(&mut m, target.as_str());
            return Hop::Fail(AppError::Auth(m));
        }
        self.next = target;
        self.method = Method::Get;
        Hop::Follow
    }

    /// End the request with the body of a final answer: the body of a
    /// success, else an error naming the status and the URL.
    pub fn deliver(status: u16, request_url: &RequestUrl, body: String) -> (r: Result<String, AppError>)
        ensures
            is_success_status(status) ==> r == Ok::<String, AppError>(body),
            !is_success_status(status) ==> (r matches Err(AppError::HttpStatus { status: s, url })
                && s == status && url@ == request_url.serialized@),
    {
        if 200 <= status && status <= 299 {
            Ok(body)
        } else {
            Err(AppError::HttpStatus { status, url: request_url.serialized.clone() })
        }
    }
}

} // verus!
