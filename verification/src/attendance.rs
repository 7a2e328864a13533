//! The attendance polling policy, expressed as functions of values.
//!
//! Every decision is a function of what the caller supplies: the current
//! instant, the class window, and the last observed submission outcome.

use vstd::prelude::*;

use crate::schedule::ScheduledClass;
use crate::text::{
    chars_of, contains, find_from_exec, int_text, int_text_exec, lemma_occurrence_contained, lower,
    lower_chars, matches_at, nat_digits, nat_text_exec, push_str, starts_with, string_from, trim,
    trim_range,
};
use crate::time::{
    class_end, effective_end_spec, in_placeable_range, minutes_until, minutes_until_spec, placed_near, saturating_diff,
    to_zoned, SPAN_MINUTES_MAX,
};

verus! {

/// What the poller should do next.
#[derive(Debug, Clone, Copy, PartialEq, Eq, Structural)]
pub enum Action {
    /// The class has not started; wait this many seconds, then re-evaluate.
    Wait(u64),
    /// Submit attendance now.
    Poll,
    /// The class is over; stop.
    Finished,
}

/// Whether the submission window is open, as reported by the server.
#[derive(Debug, Clone, PartialEq, Eq)]
pub enum Submission {
    /// Attendance is recorded.
    Confirmed,
    /// The window has closed.
    Closed,
    /// The activity is live but nothing was recorded yet.
    NotYet,
    /// The server answered with something unrecognised.
    Unknown(String),
}

/// The most of an unrecognised body kept for diagnostics, in characters.
pub const UNKNOWN_BODY_LIMIT: usize = 120;

/// The part of an unrecognised body that is kept: trimmed, then cut to its
/// first [`UNKNOWN_BODY_LIMIT`] characters.
pub open spec fn kept_body(body: Seq<char>) -> Seq<char> {
    let t = trim(body);
    if t.len() <= UNKNOWN_BODY_LIMIT {
        t
    } else {
        t.take(UNKNOWN_BODY_LIMIT as int)
    }
}

/// Whether the lower-cased body mentions `word`.
pub open spec fn mentions(body: Seq<char>, word: Seq<char>) -> bool {
    contains(lower(body), word)
}

/// Whether `s` occurs in the characters of `v`.
fn occurs(v: &Vec<char>, s: &str) -> (b: bool)
    ensures
        b == contains(v@, s@),
{
    let pat = chars_of(s);
    match find_from_exec(v.as_slice(), pat.as_slice(), 0) {
        Some(_) => true,
        None => false,
    }
}

impl Submission {
    /// Classify a raw submission response body.
    ///
    /// Mirrors the page's own test: it ticks its checkmark when the body
    /// contains `present` or `active`, and shows a closed error when it
    /// contains `submission closed`. The `success` token is only the response
    /// envelope (`success|<datetime>|<status>|...`) and is *not* a success
    /// test, so `success|...|Absent|...` is not reported as confirmed.
    pub fn classify(body: &str) -> (r: Submission)
        ensures
            mentions(body@, "submission closed"@) ==> r is Closed,
            !mentions(body@, "submission closed"@) && (mentions(body@, "present"@) || mentions(
                body@,
                "active"@,
            )) ==> r is Confirmed,
            !mentions(body@, "submission closed"@) && !mentions(body@, "present"@) && !mentions(
                body@,
                "active"@,
            ) && (mentions(body@, "success"@) || mentions(body@, "|"@)) ==> r is NotYet,
            !mentions(body@, "submission closed"@) && !mentions(body@, "present"@) && !mentions(
                body@,
                "active"@,
            ) && !mentions(body@, "success"@) && !mentions(body@, "|"@) ==> (r matches Submission::Unknown(
                t,
            ) && t@ == kept_body(body@)),
    {
        let chars = chars_of(body);
        let lowered = lower_chars(chars.as_slice());
        if occurs(&lowered, "submission closed") {
            return Submission::Closed;
        }
        if occurs(&lowered, "present") || occurs(&lowered, "active") {
            return Submission::Confirmed;
        }
        if occurs(&lowered, "success") || occurs(&lowered, "|") {
            return Submission::NotYet;
        }
        let n = chars.len();
        assert(chars@.subrange(0, n as int) =~= chars@);
        let (a, b) = trim_range(&chars, 0, n);
        let end = if b - a > UNKNOWN_BODY_LIMIT {
            a + UNKNOWN_BODY_LIMIT
        } else {
            b
        };
        let kept = string_from(&chars, a, end);
        assert(kept@ =~= kept_body(body@));
        Submission::Unknown(kept)
    }

    /// Whether attendance is securely recorded.
    pub fn is_confirmed(&self) -> (b: bool)
        ensures
            b == (*self is Confirmed),
    {
        match self {
            Submission::Confirmed => true,
            _ => false,
        }
    }

    /// Whether the server reported the window closed.
    pub fn is_closed(&self) -> (b: bool)
        ensures
            b == (*self is Closed),
    {
        match self {
            Submission::Closed => true,
            _ => false,
        }
    }

    /// The human-readable description.
    pub open spec fn text_spec(self) -> Seq<char> {
        match self {
            Submission::Confirmed => "confirmed"@,
            Submission::Closed => "submission window closed"@,
            Submission::NotYet => "not yet recorded"@,
            Submission::Unknown(body) => "unrecognised response: "@ + body@,
        }
    }

    /// The human-readable description.
    pub fn text(&self) -> (r: String)
        ensures
            r@ == self.text_spec(),
    {
        match self {
            Submission::Confirmed => "confirmed".to_string(),
            Submission::Closed => "submission window closed".to_string(),
            Submission::NotYet => "not yet recorded".to_string(),
            Submission::Unknown(body) => {
                let mut r = "unrecognised response: ".to_string();
                push_str(&mut r, body.as_str());
                r
            },
        }
    }
}

/// A class window resolved to instants, in seconds since the Unix epoch.
#[derive(Debug, Clone, Copy, PartialEq, Eq, Structural)]
pub struct ClassWindow {
    /// When the class starts.
    pub starts_at: i64,
    /// When the class ends.
    pub ends_at: i64,
}

/// Whole minutes elapsed from `since` to `now`, saturating at zero.
pub open spec fn minutes_elapsed(now: int, since: int) -> int {
    minutes_until_spec(now, since)
}

impl ClassWindow {
    /// Resolve a scheduled class into instants.
    ///
    /// Returns `None` when the civil times cannot be placed in `zone`, which
    /// happens only near the ends of `jiff`'s range.
    pub fn resolve(class: &ScheduledClass, fallback_secs: u64, zone: &jiff::tz::TimeZone) -> (r:
        Option<ClassWindow>)
        requires
            class.wf(),
            class.ends_at is None ==> fallback_secs / 60 <= SPAN_MINUTES_MAX,
        ensures
            r matches Some(w) ==> placed_near(class.starts_at, w.starts_at as int) && placed_near(
                effective_end_spec(class.starts_at, class.ends_at, fallback_secs),
                w.ends_at as int,
            ),
            in_placeable_range(class.starts_at) && in_placeable_range(
                effective_end_spec(class.starts_at, class.ends_at, fallback_secs),
            ) ==> r is Some,
    {
        let ends = match class_end(class.starts_at, class.ends_at, fallback_secs, zone) {
            Some(z) => z,
            None => {
                return None;
            },
        };
        let starts = match to_zoned(&class.starts_at, zone) {
            Some(z) => z,
            None => {
                return None;
            },
        };
        Some(ClassWindow { starts_at: starts.timestamp, ends_at: ends.timestamp })
    }

    /// Whether the class has already finished at `now`.
    pub fn is_over(&self, now: i64) -> (b: bool)
        ensures
            b == (now >= self.ends_at),
    {
        now >= self.ends_at
    }

    /// Whole minutes elapsed since the start, saturating at zero.
    pub fn minutes_since_start(&self, now: i64) -> (m: i64)
        ensures
            m == minutes_elapsed(now as int, self.starts_at as int),
    {
        minutes_until(now, self.starts_at)
    }

    /// Whole minutes elapsed since the end, saturating at zero.
    pub fn minutes_since_end(&self, now: i64) -> (m: i64)
        ensures
            m == minutes_elapsed(now as int, self.ends_at as int),
    {
        minutes_until(now, self.ends_at)
    }
}

/// What the poller should do at `now`.
pub open spec fn next_action_spec(window: ClassWindow, now: int, confirmed: bool) -> Action {
    if confirmed || now >= window.ends_at {
        Action::Finished
    } else if saturating_diff(window.starts_at as int, now) > 0 {
        Action::Wait(saturating_diff(window.starts_at as int, now) as u64)
    } else {
        Action::Poll
    }
}

/// Decide what the poller should do now.
///
/// `confirmed` short-circuits everything: once attendance is recorded there is
/// nothing left to do, regardless of the clock.
pub fn next_action(window: &ClassWindow, now: i64, confirmed: bool) -> (a: Action)
    ensures
        a == next_action_spec(*window, now as int, confirmed),
{
    if confirmed {
        return Action::Finished;
    }
    if window.is_over(now) {
        return Action::Finished;
    }
    let d = (window.starts_at as i128) - (now as i128);
    if d > 0 {
        let until_start: i64 = if d > 0x7fff_ffff_ffff_ffff {
            0x7fff_ffff_ffff_ffff
        } else {
            d as i64
        };
        return Action::Wait(until_start as u64);
    }
    Action::Poll
}

/// The threshold in seconds as a signed count; a value too large for one
/// counts as the default half hour.
pub open spec fn threshold_seconds(threshold_secs: u64) -> int {
    if threshold_secs > i64::MAX {
        1800
    } else {
        threshold_secs as int
    }
}

/// Whether the one-shot "nearly over" warning is due.
pub open spec fn should_warn_spec(
    window: ClassWindow,
    now: int,
    threshold_secs: u64,
    warning_sent: bool,
) -> bool {
    let remaining = minutes_until_spec(window.ends_at as int, now);
    let scaled = if remaining * 60 > i64::MAX {
        i64::MAX as int
    } else {
        remaining * 60
    };
    !warning_sent && scaled <= threshold_seconds(threshold_secs)
}

/// Whether the one-shot "nearly over" warning is due.
///
/// `warning_sent` makes the warning fire exactly once.
pub fn should_warn(window: &ClassWindow, now: i64, threshold_secs: u64, warning_sent: bool) -> (b:
    bool)
    ensures
        b == should_warn_spec(*window, now as int, threshold_secs, warning_sent),
{
    if warning_sent {
        return false;
    }
    let remaining = minutes_until(window.ends_at, now);
    let threshold: i64 = if threshold_secs > 0x7fff_ffff_ffff_ffff {
        1800
    } else {
        threshold_secs as i64
    };
    let scaled: i64 = if remaining > 0x7fff_ffff_ffff_ffff / 60 {
        0x7fff_ffff_ffff_ffff
    } else {
        remaining * 60
    };
    scaled <= threshold
}

/// The attempt count shown to the user: the attempt index plus one, saturating.
pub open spec fn shown_attempts(attempt: u32) -> nat {
    if attempt == u32::MAX {
        u32::MAX as nat
    } else {
        (attempt + 1) as nat
    }
}

/// The "nearly over" warning body.
pub open spec fn warning_message_spec(
    course_code: Seq<char>,
    name: Seq<char>,
    minutes_remaining: int,
    attempt: u32,
    had_error: bool,
) -> Seq<char> {
    let attempts = nat_digits(shown_attempts(attempt));
    "**- ATTENDANCE WARNING**\n"@ + "> Course: "@ + course_code + "\n> Class: "@ + name
        + "\n> Only "@ + int_text(minutes_remaining) + " minutes remaining!\n"@ + (if had_error {
        "ERROR occurred during attempt "@ + attempts + "\nTotal attempts: "@ + attempts
    } else {
        "> Attempts so far: "@ + attempts
    })
}

/// Render the "nearly over" warning body.
pub fn warning_message(class: &ScheduledClass, minutes_remaining: i64, attempt: u32, had_error: bool) -> (r:
    String)
    ensures
        r@ == warning_message_spec(
            class.course_code@,
            class.name@,
            minutes_remaining as int,
            attempt,
            had_error,
        ),
{
    let attempts: u32 = if attempt == u32::MAX {
        u32::MAX
    } else {
        attempt + 1
    };
    let count = nat_text_exec(attempts as u64);
    let mut message = "**- ATTENDANCE WARNING**\n".to_string();
    push_str(&mut message, "> Course: ");
    push_str(&mut message, class.course_code.as_str());
    push_str(&mut message, "\n> Class: ");
    push_str(&mut message, class.name.as_str());
    push_str(&mut message, "\n> Only ");
    let minutes = int_text_exec(minutes_remaining);
    push_str(&mut message, minutes.as_str());
    push_str(&mut message, " minutes remaining!\n");
    let ghost head = message@;
    if had_error {
        push_str(&mut message, "ERROR occurred during attempt ");
        push_str(&mut message, count.as_str());
        push_str(&mut message, "\nTotal attempts: ");
        push_str(&mut message, count.as_str());
    } else {
        push_str(&mut message, "> Attempts so far: ");
        push_str(&mut message, count.as_str());
    }
    assert(message@ =~= warning_message_spec(
        class.course_code@,
        class.name@,
        minutes_remaining as int,
        attempt,
        had_error,
    ));
    message
}

/// The confirmation body.
pub open spec fn confirmed_message_spec(course_code: Seq<char>, name: Seq<char>, at: Seq<char>) -> Seq<
    char,
> {
    "**- Attendance Confirmed!**\n> Course: "@ + course_code + "\n> Class: "@ + name + "\n> Time: "@
        + at + "\n> Status: Attendance successfully submitted"@
}

/// Render the confirmation body.
pub fn confirmed_message(class: &ScheduledClass, at: &str) -> (r: String)
    ensures
        r@ == confirmed_message_spec(class.course_code@, class.name@, at@),
{
    let mut message = "**- Attendance Confirmed!**\n> Course: ".to_string();
    push_str(&mut message, class.course_code.as_str());
    push_str(&mut message, "\n> Class: ");
    push_str(&mut message, class.name.as_str());
    push_str(&mut message, "\n> Time: ");
    push_str(&mut message, at);
    push_str(&mut message, "\n> Status: Attendance successfully submitted");
    assert(message@ =~= confirmed_message_spec(class.course_code@, class.name@, at@));
    message
}

/// The confirmation notice names the course, the class and the time of the
/// confirmation, each on its own line after its label, and under its heading;
/// notices that differ only in the time are different notices.
pub proof fn lemma_confirmed_message_shows_details(
    course_code: Seq<char>,
    name: Seq<char>,
    at: Seq<char>,
    other_at: Seq<char>,
)
    ensures
        starts_with(
            confirmed_message_spec(course_code, name, at),
            "**- Attendance Confirmed!**\n"@,
        ),
        contains(confirmed_message_spec(course_code, name, at), "\n> Course: "@ + course_code + "\n"@),
        contains(confirmed_message_spec(course_code, name, at), "\n> Class: "@ + name + "\n"@),
        contains(confirmed_message_spec(course_code, name, at), "\n> Time: "@ + at + "\n"@),
        at != other_at ==> confirmed_message_spec(course_code, name, at) != confirmed_message_spec(
            course_code,
            name,
            other_at,
        ),
{
    let head = "**- Attendance Confirmed!**\n> Course: "@;
    let class_label = "\n> Class: "@;
    let time_label = "\n> Time: "@;
    let tail = "\n> Status: Attendance successfully submitted"@;
    reveal_strlit("**- Attendance Confirmed!**\n> Course: ");
    reveal_strlit("**- Attendance Confirmed!**\n");
    reveal_strlit("\n> Class: ");
    reveal_strlit("\n> Time: ");
    reveal_strlit("\n> Course: ");
    reveal_strlit("\n");
    reveal_strlit("\n> Status: Attendance successfully submitted");
    let m = confirmed_message_spec(course_code, name, at);
    let a = head + course_code + class_label + name + time_label;
    assert(m =~= a + at + tail);
    assert(m.subrange(0, 28) =~= "**- Attendance Confirmed!**\n"@);
    let p1 = "\n> Course: "@ + course_code + "\n"@;
    assert(m.subrange(27, 27 + p1.len() as int) =~= p1);
    lemma_occurrence_contained(m, p1, 27);
    let i2: int = (head.len() + course_code.len()) as int;
    let p2 = class_label + name + "\n"@;
    assert(m.subrange(i2, i2 + p2.len() as int) =~= p2);
    lemma_occurrence_contained(m, p2, i2);
    let i3: int = i2 + class_label.len() + name.len();
    let p3 = time_label + at + "\n"@;
    assert(m.subrange(i3, i3 + p3.len() as int) =~= p3);
    lemma_occurrence_contained(m, p3, i3);
    if at != other_at {
        let o = confirmed_message_spec(course_code, name, other_at);
        assert(o =~= a + other_at + tail);
        if m == o {
            assert(at.len() == other_at.len());
            assert(at =~= m.subrange(a.len() as int, a.len() + at.len() as int));
            assert(other_at =~= o.subrange(a.len() as int, a.len() + other_at.len() as int));
        }
    }
}

/// The failure body.
pub open spec fn failed_message_spec(course_code: Seq<char>, attempts: u32) -> Seq<char> {
    "**- Attendance FAILED**\n> Course: "@ + course_code
        + "\n> Status: Attendance submission not confirmed by end of class\n> Total attempts: "@
        + nat_digits(attempts as nat)
}

/// Render the failure body.
pub fn failed_message(class: &ScheduledClass, attempts: u32) -> (r: String)
    ensures
        r@ == failed_message_spec(class.course_code@, attempts),
{
    let mut message = "**- Attendance FAILED**\n> Course: ".to_string();
    push_str(&mut message, class.course_code.as_str());
    push_str(
        &mut message,
        "\n> Status: Attendance submission not confirmed by end of class\n> Total attempts: ",
    );
    let count = nat_text_exec(attempts as u64);
    push_str(&mut message, count.as_str());
    assert(message@ =~= failed_message_spec(class.course_code@, attempts));
    message
}

} // verus!
