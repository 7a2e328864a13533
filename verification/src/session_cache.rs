//! When a cached session may be reused, and when a fresh login may be tried.
//!
//! Logging in on every attendance poll would hammer the SSO chain; the session
//! is reused for as long as its `LtpaToken` remains valid, and a failed login
//! suppresses the next attempt for a while, so the SSO endpoint sees at most
//! one login attempt per backoff window. The caller holds the session and the
//! clock; the decisions are here.

use vstd::prelude::*;

use crate::error::AppError;
use crate::ltpa::{ltpa_expiry_spec, parse_ltpa_expiry};
use crate::text::{nat_digits, nat_text_exec, push_str};

verus! {

/// Re-login once the cached session has less than this many seconds left.
///
/// A margin is needed because a poll may begin just before expiry and still be
/// in flight when it lapses.
pub const REFRESH_MARGIN_SECS: i64 = 300;

/// How long a failed login suppresses the next attempt, in seconds.
pub const RETRY_BACKOFF_SECS: u64 = 30;

/// The name of the cookie that carries the session's expiry.
pub const LTPA_COOKIE: &'static str = "LtpaToken";

/// Whether a cached session may be reused at `now`: when its token's expiry
/// cannot be read the server decides, so it is reused; otherwise only while
/// the expiry lies beyond `now` plus the refresh margin.
pub open spec fn reusable_spec(token: Option<Seq<char>>, now: int) -> bool {
    match token {
        None => true,
        Some(t) => match ltpa_expiry_spec(t) {
            None => true,
            Some((_, expires_at)) => {
                let horizon = if now + REFRESH_MARGIN_SECS > i64::MAX {
                    i64::MAX as int
                } else {
                    now + REFRESH_MARGIN_SECS
                };
                horizon < expires_at
            },
        },
    }
}

/// Whether a cached session whose `LtpaToken` holds `token` (`None` when it
/// carries no such cookie) may be reused at `now`.
pub fn is_reusable(token: Option<&str>, now: i64) -> (b: bool)
    ensures
        b == reusable_spec(
            match token {
                Some(t) => Some(t@),
                None => None,
            },
            now as int,
        ),
{
    let token = match token {
        Some(t) => t,
        None => {
            return true;
        },
    };
    let expiry = match parse_ltpa_expiry(token) {
        Some(e) => e,
        None => {
            return true;
        },
    };
    let horizon: i64 = if now > 0x7fff_ffff_ffff_ffff - REFRESH_MARGIN_SECS {
        0x7fff_ffff_ffff_ffff
    } else {
        now + REFRESH_MARGIN_SECS
    };
    !expiry.is_expired(horizon)
}

/// How long, in nanoseconds, a failure `elapsed_nanos` ago still suppresses a
/// login: the rest of the backoff, or nothing once it has run out.
pub open spec fn backoff_remaining_spec(elapsed_nanos: u128) -> Option<int> {
    let backoff = RETRY_BACKOFF_SECS * 1_000_000_000;
    if elapsed_nanos < backoff {
        Some(backoff - elapsed_nanos)
    } else {
        None
    }
}

/// How long a failure `elapsed_nanos` ago still suppresses the next login.
pub fn backoff_remaining(elapsed_nanos: u128) -> (r: Option<u128>)
    ensures
        match r {
            Some(n) => backoff_remaining_spec(elapsed_nanos) == Some(n as int) && n > 0,
            None => backoff_remaining_spec(elapsed_nanos) is None,
        },
{
    let backoff: u128 = (RETRY_BACKOFF_SECS as u128) * 1_000_000_000;
    if elapsed_nanos < backoff {
        Some(backoff - elapsed_nanos)
    } else {
        None
    }
}

/// The refusal while a recent failure is backing off: whole seconds left.
pub open spec fn backoff_message(remaining_nanos: int) -> Seq<char> {
    "a login failed recently; retrying in "@ + nat_digits((remaining_nanos / 1_000_000_000) as nat)
        + "s"@
}

/// Whether a login may be attempted now: `None` when it may, else the
/// refusal. `since_failure_nanos` is the time since the last failed login, if
/// one is on record.
pub fn login_refusal(since_failure_nanos: Option<u128>) -> (r: Option<AppError>)
    ensures
        match since_failure_nanos {
            None => r is None,
            Some(e) => match backoff_remaining_spec(e) {
                None => r is None,
                Some(left) => r matches Some(AppError::Auth(m)) && m@ == backoff_message(left),
            },
        },
{
    let elapsed = match since_failure_nanos {
        Some(e) => e,
        None => {
            return None;
        },
    };
    match backoff_remaining(elapsed) {
        None => None,
        Some(left) => {
            let mut m = "a login failed recently; retrying in ".to_string();
            let secs = (left / 1_000_000_000) as u64;
            push_str(&mut m, nat_text_exec(secs).as_str());
            push_str(&mut m, "s");
            Some(AppError::Auth(m))
        },
    }
}

} // verus!
