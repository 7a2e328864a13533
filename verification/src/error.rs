//! The failure vocabulary: domain refusals, transport-layer failures, and the
//! port-level errors the use cases act on.

use vstd::prelude::*;

use crate::text::{debug_quoted, push_str, quote_debug};

verus! {

/// A value the domain refuses to construct.
#[derive(Debug, Clone, PartialEq, Eq)]
pub enum DomainError {
    /// A configured time of day could not be parsed.
    TimeOfDay {
        /// The rejected input.
        raw: String,
        /// Why it was rejected.
        reason: String,
    },
    /// A timestamp from an external source had the wrong shape.
    Timestamp {
        /// The rejected input.
        raw: String,
    },
    /// A URL could not be formed from domain values.
    Url {
        /// The rejected input.
        raw: String,
    },
}

impl DomainError {
    /// This is the time-of-day refusal for `raw`, for the given reason.
    pub open spec fn is_time_of_day(self, raw: Seq<char>, reason: Seq<char>) -> bool {
        self matches DomainError::TimeOfDay { raw: r, reason: why } && r@ == raw && why@ == reason
    }

    /// This is the timestamp refusal for `raw`.
    pub open spec fn is_timestamp(self, raw: Seq<char>) -> bool {
        self matches DomainError::Timestamp { raw: r } && r@ == raw
    }

    /// The time-of-day refusal.
    pub fn time_of_day(raw: &str, reason: &str) -> (e: DomainError)
        ensures
            e.is_time_of_day(raw@, reason@),
    {
        DomainError::TimeOfDay { raw: raw.to_owned(), reason: reason.to_owned() }
    }

    /// The timestamp refusal.
    pub fn timestamp(raw: &str) -> (e: DomainError)
        ensures
            e.is_timestamp(raw@),
    {
        DomainError::Timestamp { raw: raw.to_owned() }
    }

    /// The human-readable description.
    pub open spec fn message_spec(self) -> Seq<char> {
        match self {
            DomainError::TimeOfDay { raw, reason } => "invalid time of day "@ + debug_quoted(raw@)
                + ": "@ + reason@,
            DomainError::Timestamp { raw } => "invalid timestamp "@ + debug_quoted(raw@),
            DomainError::Url { raw } => "invalid url "@ + debug_quoted(raw@),
        }
    }

    /// The human-readable description.
    pub fn message(&self) -> (m: String)
        ensures
            m@ == self.message_spec(),
    {
        let mut m = String::new();
        match self {
            DomainError::TimeOfDay { raw, reason } => {
                push_str(&mut m, "invalid time of day ");
                push_str(&mut m, quote_debug(raw.as_str()).as_str());
                push_str(&mut m, ": ");
                push_str(&mut m, reason.as_str());
            },
            DomainError::Timestamp { raw } => {
                push_str(&mut m, "invalid timestamp ");
                push_str(&mut m, quote_debug(raw.as_str()).as_str());
            },
            DomainError::Url { raw } => {
                push_str(&mut m, "invalid url ");
                push_str(&mut m, quote_debug(raw.as_str()).as_str());
            },
        }
        m
    }
}

/// Every failure mode the transport layer can surface.
///
/// Failures that originate in an outside library carry that library's own
/// description of the problem.
#[derive(Debug, Clone, PartialEq, Eq)]
pub enum AppError {
    /// A required environment variable is missing or malformed.
    Config(String),
    /// The SSO login chain did not reach an authenticated dashboard.
    Auth(String),
    /// The OLE API answered, but with an error payload.
    Api(String),
    /// A page did not contain the markers the flow depends on.
    Parse(String),
    /// The configured session cookie was rejected by OLE.
    SessionRejected(String),
    /// OLE redirected a page request to its login flow because the session is
    /// no longer accepted.
    SessionExpired(String),
    /// The server answered with a non-success HTTP status.
    HttpStatus {
        /// The status code.
        status: u16,
        /// The URL that answered.
        url: String,
    },
    /// Transport-level failure, described with its cause chain.
    Http(String),
    /// JSON decoding failure.
    Json(String),
    /// URL construction failure.
    Url(String),
    /// Date/time parsing or arithmetic failure.
    Time(String),
    /// A domain rule rejected a value.
    Domain(DomainError),
}

impl AppError {
    /// The human-readable description.
    pub open spec fn message_spec(self) -> Seq<char> {
        match self {
            AppError::Config(r) => "configuration error: "@ + r@,
            AppError::Auth(r) => "authentication failed: "@ + r@,
            AppError::Api(r) => "OLE API error: "@ + r@,
            AppError::Parse(r) => "unexpected page layout: "@ + r@,
            AppError::SessionRejected(r) => "session cookie rejected: "@ + r@,
            AppError::SessionExpired(r) => "session expired or was revoked: "@ + r@,
            AppError::HttpStatus { status, url } => "HTTP "@ + crate::text::nat_digits(status as nat)
                + " from "@ + url@,
            AppError::Http(r) => r@,
            AppError::Json(r) => r@,
            AppError::Url(r) => r@,
            AppError::Time(r) => r@,
            AppError::Domain(d) => d.message_spec(),
        }
    }

    /// The human-readable description.
    pub fn message(&self) -> (m: String)
        ensures
            m@ == self.message_spec(),
    {
        let mut m = String::new();
        match self {
            AppError::Config(r) => {
                push_str(&mut m, "configuration error: ");
                push_str(&mut m, r.as_str());
            },
            AppError::Auth(r) => {
                push_str(&mut m, "authentication failed: ");
                push_str(&mut m, r.as_str());
            },
            AppError::Api(r) => {
                push_str(&mut m, "OLE API error: ");
                push_str(&mut m, r.as_str());
            },
            AppError::Parse(r) => {
                push_str(&mut m, "unexpected page layout: ");
                push_str(&mut m, r.as_str());
            },
            AppError::SessionRejected(r) => {
                push_str(&mut m, "session cookie rejected: ");
                push_str(&mut m, r.as_str());
            },
            AppError::SessionExpired(r) => {
                push_str(&mut m, "session expired or was revoked: ");
                push_str(&mut m, r.as_str());
            },
            AppError::HttpStatus { status, url } => {
                push_str(&mut m, "HTTP ");
                push_str(&mut m, crate::text::nat_text_exec(*status as u64).as_str());
                push_str(&mut m, " from ");
                push_str(&mut m, url.as_str());
            },
            AppError::Http(r) | AppError::Json(r) | AppError::Url(r) | AppError::Time(r) => {
                push_str(&mut m, r.as_str());
            },
            AppError::Domain(d) => {
                push_str(&mut m, d.message().as_str());
            },
        }
        m
    }
}

/// Why a session could not be used, so callers can tell "log in again" from
/// "give up".
#[derive(Debug, Clone, PartialEq, Eq)]
pub enum SessionFailure {
    /// The supplied cookie was refused outright.
    Rejected(String),
    /// A session that was accepted earlier is no longer valid.
    Expired(String),
    /// The session could not be established for another reason.
    Unavailable(String),
}

/// Anything that can go wrong below the application layer.
#[derive(Debug, Clone, PartialEq, Eq)]
pub enum PortError {
    /// The session is not accepted, or was revoked mid-flight.
    Session(SessionFailure),
    /// The remote service answered, but with an error.
    Remote(String),
    /// A response did not have the shape the adapter expected.
    Unexpected(String),
    /// Transport-level failure: DNS, TLS, timeout, connection reset.
    Transport(String),
}

impl SessionFailure {
    /// The human-readable description.
    pub open spec fn message_spec(self) -> Seq<char> {
        match self {
            SessionFailure::Rejected(r) => "session rejected: "@ + r@,
            SessionFailure::Expired(r) => "session expired or revoked: "@ + r@,
            SessionFailure::Unavailable(r) => "session unavailable: "@ + r@,
        }
    }

    /// The human-readable description.
    pub fn message(&self) -> (m: String)
        ensures
            m@ == self.message_spec(),
    {
        let mut m = String::new();
        match self {
            SessionFailure::Rejected(r) => {
                push_str(&mut m, "session rejected: ");
                push_str(&mut m, r.as_str());
            },
            SessionFailure::Expired(r) => {
                push_str(&mut m, "session expired or revoked: ");
                push_str(&mut m, r.as_str());
            },
            SessionFailure::Unavailable(r) => {
                push_str(&mut m, "session unavailable: ");
                push_str(&mut m, r.as_str());
            },
        }
        m
    }
}

impl PortError {
    /// Whether the failure means the session must be re-established.
    pub fn is_session_failure(&self) -> (b: bool)
        ensures
            b == (self is Session),
    {
        match self {
            PortError::Session(_) => true,
            _ => false,
        }
    }

    /// The human-readable description.
    pub open spec fn message_spec(self) -> Seq<char> {
        match self {
            PortError::Session(f) => "session unavailable: "@ + f.message_spec(),
            PortError::Remote(r) => "remote service error: "@ + r@,
            PortError::Unexpected(r) => "unexpected response: "@ + r@,
            PortError::Transport(r) => "transport failure: "@ + r@,
        }
    }

    /// The human-readable description.
    pub fn message(&self) -> (m: String)
        ensures
            m@ == self.message_spec(),
    {
        let mut m = String::new();
        match self {
            PortError::Session(f) => {
                push_str(&mut m, "session unavailable: ");
                push_str(&mut m, f.message().as_str());
            },
            PortError::Remote(r) => {
                push_str(&mut m, "remote service error: ");
                push_str(&mut m, r.as_str());
            },
            PortError::Unexpected(r) => {
                push_str(&mut m, "unexpected response: ");
                push_str(&mut m, r.as_str());
            },
            PortError::Transport(r) => {
                push_str(&mut m, "transport failure: ");
                push_str(&mut m, r.as_str());
            },
        }
        m
    }

    /// Map a transport-layer error into the port's vocabulary,
    /// preserving the distinction between a dead session and every other
    /// failure.
    pub fn from_app_error(error: AppError) -> (r: PortError)
        ensures
            translates_to(error, r),
    {
        match error {
            AppError::SessionRejected(reason) => PortError::Session(SessionFailure::Rejected(reason)),
            AppError::SessionExpired(reason) => PortError::Session(SessionFailure::Expired(reason)),
            AppError::Http(source) => PortError::Transport(source),
            AppError::Api(reason) => PortError::Remote(reason),
            AppError::HttpStatus { status, url } => {
                let mut m = String::new();
                push_str(&mut m, "HTTP ");
                push_str(&mut m, crate::text::nat_text_exec(status as u64).as_str());
                push_str(&mut m, " from ");
                push_str(&mut m, url.as_str());
                PortError::Remote(m)
            },
            AppError::Parse(reason) => PortError::Unexpected(reason),
            AppError::Config(reason) => PortError::Unexpected(reason),
            AppError::Auth(reason) => PortError::Session(SessionFailure::Unavailable(reason)),
            AppError::Json(source) => PortError::Unexpected(source),
            AppError::Url(source) => PortError::Unexpected(source),
            AppError::Time(source) => PortError::Unexpected(source),
            AppError::Domain(source) => PortError::Unexpected(source.message()),
        }
    }
}

/// `out` is the port error `error` becomes: the variant is chosen by the
/// kind of failure and the description is carried over (a status is rendered
/// as `HTTP {status} from {url}`, a domain error as its message).
pub open spec fn translates_to(error: AppError, out: PortError) -> bool {
    match error {
        AppError::SessionRejected(r) => out matches PortError::Session(SessionFailure::Rejected(x)) && x@ == r@,
        AppError::SessionExpired(r) => out matches PortError::Session(SessionFailure::Expired(x)) && x@ == r@,
        AppError::Auth(r) => out matches PortError::Session(SessionFailure::Unavailable(x)) && x@ == r@,
        AppError::Http(r) => out matches PortError::Transport(x) && x@ == r@,
        AppError::Api(r) => out matches PortError::Remote(x) && x@ == r@,
        AppError::HttpStatus { status, url } => out matches PortError::Remote(x) && x@ == "HTTP "@
            + crate::text::nat_digits(status as nat) + " from "@ + url@,
        AppError::Parse(r) => out matches PortError::Unexpected(x) && x@ == r@,
        AppError::Config(r) => out matches PortError::Unexpected(x) && x@ == r@,
        AppError::Json(r) => out matches PortError::Unexpected(x) && x@ == r@,
        AppError::Url(r) => out matches PortError::Unexpected(x) && x@ == r@,
        AppError::Time(r) => out matches PortError::Unexpected(x) && x@ == r@,
        AppError::Domain(d) => out matches PortError::Unexpected(x) && x@ == d.message_spec(),
    }
}

/// The messages of an error and its causes, joined with `: `, outermost
/// first.
pub open spec fn chain_text(chain: Seq<Seq<char>>) -> Seq<char>
    decreases chain.len(),
{
    if chain.len() == 0 {
        Seq::empty()
    } else if chain.len() == 1 {
        chain[0]
    } else {
        chain_text(chain.drop_last()) + ": "@ + chain.last()
    }
}

/// Render an error together with its source chain: the error's own message,
/// then each cause's, separated by `: `.
///
/// A transport error's own message names only the request kind and URL, so a
/// timeout, a TLS rejection and a DNS failure would otherwise collapse into
/// one indistinguishable message; the cause is carried across the port
/// boundary.
pub fn describe(chain: &Vec<String>) -> (r: String)
    ensures
        r@ == chain_text(chain@.map_values(|s: String| s@)),
{
    let ghost v = chain@.map_values(|s: String| s@);
    let mut r = String::new();
    let mut i: usize = 0;
    while i < chain.len()
        invariant
            i <= chain@.len(),
            v == chain@.map_values(|s: String| s@),
            r@ == chain_text(v.take(i as int)),
        decreases chain@.len() - i,
    {
        assert(v.take(i + 1).drop_last() =~= v.take(i as int));
        if i > 0 {
            push_str(&mut r, ": ");
        } else {
            assert(v.take(0) =~= Seq::<Seq<char>>::empty());
        }
        push_str(&mut r, chain[i].as_str());
        proof {
            if i == 0 {
                assert(r@ =~= v.take(1)[0]);
            }
        }
        i = i + 1;
    }
    assert(v.take(i as int) =~= v);
    r
}

} // verus!
