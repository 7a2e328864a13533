//! The daily setup: fetch the timetable with retries, report it, and decide
//! what gets scheduled; and the notices the application sends around it.
//!
//! The caller performs the fetches, sleeps, invalidations and deliveries each
//! step asks for.

use vstd::prelude::*;

use crate::error::PortError;
use crate::schedule::{
    classes_message, classes_view, format_classes_message, listed_classes, outcome_view, select_day,
    sorted_by_start, DaySchedule, Timetable,
};
use crate::text::push_str;
use crate::time::CivilDate;

verus! {

/// How important a notice is.
#[derive(Debug, Clone, Copy, PartialEq, Eq, Structural)]
pub enum Notice {
    /// Normal progress.
    Info,
    /// Something deserves attention but is not fatal.
    Warning,
    /// A failure.
    Error,
}

/// Where a one-shot report is delivered.
#[derive(Debug, Clone, Copy, PartialEq, Eq, Structural)]
pub enum Report {
    /// Written to the log only.
    Log,
    /// Written to the log, and posted to Discord when a webhook is configured.
    Discord,
}

/// How hard to try retrieving a timetable before deferring to the next run.
#[derive(Debug, Clone, Copy, PartialEq, Eq, Structural)]
pub struct RetryPolicy {
    /// Attempts made to retrieve a usable timetable.
    pub attempts: u32,
    /// Seconds between those attempts.
    pub delay_secs: u64,
}

/// What a daily setup produced.
#[derive(Debug, Clone)]
pub enum SetupOutcome {
    /// A timetable was retrieved and reported.
    Ready(DaySchedule),
    /// The service answered, but without a usable timetable.
    Unusable {
        /// The service's own description of the problem.
        reason: String,
    },
}

/// What the fetch loop does next.
pub enum FetchStep {
    /// Fetch the timetable, after sleeping this many seconds when given.
    Fetch {
        /// Seconds to sleep first.
        sleep_secs: Option<u64>,
    },
    /// A usable timetable arrived.
    Done(Timetable),
    /// Every attempt failed; this is the last failure.
    GaveUp(PortError),
}

/// The fetch loop's progress.
pub struct Retrier {
    /// The policy in force.
    pub policy: RetryPolicy,
    /// Attempts made so far.
    pub made: u32,
}

/// The reason an unsuccessful timetable gives: its own summary, or a generic
/// one.
pub open spec fn refusal_reason(t: Timetable) -> Seq<char> {
    match outcome_view(t.outcome) {
        Some(Some(why)) => why,
        _ => "unsuccessful result"@,
    }
}

/// The reason an unsuccessful timetable gives: its own summary, or a generic
/// one.
pub fn unusable_reason(t: &Timetable) -> (r: String)
    ensures
        r@ == refusal_reason(*t),
{
    match t.error_summary() {
        Some(why) => why,
        None => "unsuccessful result".to_string(),
    }
}

impl Retrier {
    /// Begin fetching under `policy`: the first fetch is immediate, and a
    /// policy allowing no attempt gives up at once.
    pub fn start(policy: RetryPolicy) -> (r: (Retrier, FetchStep))
        ensures
            r.0.policy == policy,
            r.0.made == 0,
            policy.attempts == 0 ==> (r.1 matches FetchStep::GaveUp(e) && e matches PortError::Remote(
                m,
            ) && m@ == "no attempt produced a payload"@),
            policy.attempts > 0 ==> r.1 matches FetchStep::Fetch { sleep_secs: None },
    {
        let retrier = Retrier { policy, made: 0 };
        if policy.attempts == 0 {
            (
                retrier,
                FetchStep::GaveUp(PortError::Remote("no attempt produced a payload".to_string())),
            )
        } else {
            (retrier, FetchStep::Fetch { sleep_secs: None })
        }
    }

    /// Decide what follows a fetch that returned `result`.
    ///
    /// A successful timetable ends the loop. An unsuccessful one is this API's
    /// way of saying the session is not usable, so the session is discarded;
    /// a failed fetch discards it only when the session itself was rejected,
    /// since a transport blip must not throw away a session that still works.
    /// Until the attempts run out the loop sleeps the policy's delay and
    /// fetches again; then it gives up with the last failure.
    pub fn record(&mut self, result: Result<Timetable, PortError>) -> (r: (FetchStep, bool))
        requires
            old(self).made < old(self).policy.attempts,
        ensures
            final(self).policy == old(self).policy,
            final(self).made == old(self).made + 1,
            r.1 == match result {
                Ok(t) => !(t.outcome is Success),
                Err(e) => e is Session,
            },
            match result {
                Ok(t) => if t.outcome is Success {
                    r.0 matches FetchStep::Done(d) && d == t
                } else if final(self).made < final(self).policy.attempts {
                    r.0 == FetchStep::Fetch { sleep_secs: Some(old(self).policy.delay_secs) }
                } else {
                    r.0 matches FetchStep::GaveUp(PortError::Remote(m)) && m@ == refusal_reason(t)
                },
                Err(e) => if final(self).made < final(self).policy.attempts {
                    r.0 == FetchStep::Fetch { sleep_secs: Some(old(self).policy.delay_secs) }
                } else {
                    r.0 == FetchStep::GaveUp(e)
                },
            },
    {
        self.made = self.made + 1;
        let more = self.made < self.policy.attempts;
        match result {
            Ok(t) => {
                if t.is_success() {
                    return (FetchStep::Done(t), false);
                }
                let reason = unusable_reason(&t);
                if more {
                    (FetchStep::Fetch { sleep_secs: Some(self.policy.delay_secs) }, true)
                } else {
                    (FetchStep::GaveUp(PortError::Remote(reason)), true)
                }
            },
            Err(e) => {
                let invalidate = e.is_session_failure();
                if more {
                    (FetchStep::Fetch { sleep_secs: Some(self.policy.delay_secs) }, invalidate)
                } else {
                    (FetchStep::GaveUp(e), invalidate)
                }
            },
        }
    }
}

/// The error notice of a setup whose fetch failed.
pub open spec fn setup_error_spec(stamp: Seq<char>, error: PortError) -> Seq<char> {
    "**Daily Setup Error**\nDate: "@ + stamp + "\nError: "@ + error.message_spec()
}

/// The error notice of a setup whose fetch failed.
pub fn setup_error_message(stamp: &str, error: &PortError) -> (r: String)
    ensures
        r@ == setup_error_spec(stamp@, *error),
{
    let mut m = "**Daily Setup Error**\nDate: ".to_string();
    push_str(&mut m, stamp);
    push_str(&mut m, "\nError: ");
    push_str(&mut m, error.message().as_str());
    assert(m@ =~= setup_error_spec(stamp@, *error));
    m
}

/// The error notice of a scheduled cycle that failed.
pub fn cycle_error_message(error: &PortError) -> (r: String)
    ensures
        r@ == "**Daily Setup Error**\nError: "@ + error.message_spec(),
{
    let mut m = "**Daily Setup Error**\nError: ".to_string();
    push_str(&mut m, error.message().as_str());
    m
}

/// Conclude a setup from the fetched timetable: select `today`'s classes,
/// render the class-list notice with `stamp`, and report the schedule as
/// ready when the timetable was successful, else as unusable with the
/// timetable's reason.
pub fn conclude_setup(payload: &Timetable, today: CivilDate, stamp: &str) -> (r: (String, SetupOutcome))
    ensures
        ({
            let selected = sorted_by_start(listed_classes(payload.courses@, today));
            &&& r.0@ == classes_message(payload.outcome is Success, selected, stamp@)
            &&& payload.outcome is Success ==> (r.1 matches SetupOutcome::Ready(s) && classes_view(
                s.classes@,
            ) == selected && s.outcome is Success && s.wf())
            &&& !(payload.outcome is Success) ==> (r.1 matches SetupOutcome::Unusable { reason }
                && reason@ == refusal_reason(*payload))
        }),
{
    let schedule = select_day(payload, today);
    let message = format_classes_message(&schedule, stamp);
    if !schedule.is_success() {
        let reason = unusable_reason(payload);
        return (message, SetupOutcome::Unusable { reason });
    }
    (message, SetupOutcome::Ready(schedule))
}

} // verus!
