//! Driving one class's attendance to a conclusion.
//!
//! The caller supplies reality — the clock, the gateway's answers, the
//! notifier and the session cache — and performs what each step decides: it
//! waits, submits, invalidates the session, and delivers the notices. Every
//! decision is taken here.

use vstd::prelude::*;

use crate::attendance::{
    failed_message, failed_message_spec, next_action, next_action_spec, should_warn,
    should_warn_spec, warning_message, warning_message_spec, Action, ClassWindow, Submission,
};
use crate::error::PortError;
use crate::schedule::ScheduledClass;
use crate::time::{minutes_until, minutes_until_spec};

verus! {

/// How one class finished.
#[derive(Debug, Clone, Copy, PartialEq, Eq, Structural)]
pub enum AttendanceOutcome {
    /// Attendance was recorded.
    Confirmed,
    /// Polling ended without a confirmation.
    Unconfirmed {
        /// How many submissions were attempted.
        attempts: u32,
    },
    /// The class had already finished before polling began.
    AlreadyOver,
}

/// What to do before the first submission.
#[derive(Debug, Clone, Copy, PartialEq, Eq, Structural)]
pub enum StartStep {
    /// The class window could not be resolved, or the class is over: stop.
    AlreadyOver,
    /// Sleep this many seconds, then start polling.
    Wait(u64),
    /// Start polling now.
    Begin,
}

/// Decide how polling starts, given the resolved window (if any) and the
/// current instant.
pub fn start_step(window: Option<ClassWindow>, now: i64) -> (s: StartStep)
    ensures
        match window {
            None => s is AlreadyOver,
            Some(w) => match next_action_spec(w, now as int, false) {
                Action::Wait(secs) => s == StartStep::Wait(secs),
                Action::Poll => s is Begin,
                Action::Finished => s is AlreadyOver,
            },
        },
{
    match window {
        None => StartStep::AlreadyOver,
        Some(w) => match next_action(&w, now, false) {
            Action::Wait(secs) => StartStep::Wait(secs),
            Action::Poll => StartStep::Begin,
            Action::Finished => StartStep::AlreadyOver,
        },
    }
}

/// Whether another submission is due at `now`.
pub fn keep_polling(window: &ClassWindow, now: i64) -> (b: bool)
    ensures
        b == (next_action_spec(*window, now as int, false) is Poll),
{
    match next_action(window, now, false) {
        Action::Poll => true,
        _ => false,
    }
}

/// What a submission attempt came back as.
pub enum Seen {
    /// The server recorded the attendance.
    Confirmed,
    /// The server reported the window closed.
    Closed,
    /// The server answered, without recording anything.
    Pending,
    /// The session was rejected.
    SessionLost,
    /// Any other failure.
    Failed,
}

/// The kind of answer a submission attempt got.
pub open spec fn seen_of(result: Result<Submission, PortError>) -> Seen {
    match result {
        Ok(Submission::Confirmed) => Seen::Confirmed,
        Ok(Submission::Closed) => Seen::Closed,
        Ok(_) => Seen::Pending,
        Err(PortError::Session(_)) => Seen::SessionLost,
        Err(_) => Seen::Failed,
    }
}

/// The state kept between submissions.
#[derive(Debug, Clone, Copy, PartialEq, Eq, Structural)]
pub struct PollState {
    /// Submissions made without a confirmation so far.
    pub attempt: u32,
    /// Whether the "nearly over" warning has gone out.
    pub warning_sent: bool,
}

/// What to do after a submission attempt.
pub enum Round {
    /// Attendance is recorded: report it and stop.
    Confirmed,
    /// The window has closed: stop polling and report the failure.
    Stop,
    /// Keep polling: deliver the warning when there is one, then sleep.
    Continue {
        /// The "nearly over" warning to deliver now.
        warning: Option<String>,
    },
}

/// Whether the round after this answer sends the warning.
pub open spec fn warns(
    st: PollState,
    window: ClassWindow,
    seen: Seen,
    now: int,
    threshold_secs: u64,
) -> bool {
    match seen {
        Seen::Confirmed | Seen::Closed => false,
        _ => should_warn_spec(window, now, threshold_secs, st.warning_sent),
    }
}

/// Whether an answer ends the polling.
pub open spec fn ends_polling(seen: Seen) -> bool {
    seen is Confirmed || seen is Closed
}

/// The state after a round with this answer.
pub open spec fn state_after(
    st: PollState,
    window: ClassWindow,
    seen: Seen,
    now: int,
    threshold_secs: u64,
) -> PollState {
    if ends_polling(seen) {
        st
    } else {
        PollState {
            attempt: if st.attempt == u32::MAX {
                u32::MAX
            } else {
                (st.attempt + 1) as u32
            },
            warning_sent: st.warning_sent || warns(st, window, seen, now, threshold_secs),
        }
    }
}

impl PollState {
    /// No submission made yet, no warning sent.
    pub fn new() -> (st: PollState)
        ensures
            st.attempt == 0,
            !st.warning_sent,
    {
        PollState { attempt: 0, warning_sent: false }
    }

    /// Decide what follows a submission attempt answered with `result` at
    /// `now`.
    ///
    /// Returns the round's verdict and whether the cached session must be
    /// discarded: only a rejected session is, so the next attempt can log in
    /// again while a transport blip keeps a session that still works. Any
    /// failure to submit counts as an unrecorded attempt.
    pub fn after_submission(
        &mut self,
        class: &ScheduledClass,
        window: &ClassWindow,
        result: &Result<Submission, PortError>,
        now: i64,
        threshold_secs: u64,
    ) -> (r: (Round, bool))
        ensures
            r.1 == (seen_of(*result) is SessionLost),
            *final(self) == state_after(*old(self), *window, seen_of(*result), now as int, threshold_secs),
            seen_of(*result) is Confirmed ==> r.0 is Confirmed,
            seen_of(*result) is Closed ==> r.0 is Stop,
            !ends_polling(seen_of(*result)) ==> (r.0 matches Round::Continue { warning } && (
            warning is Some <==> warns(*old(self), *window, seen_of(*result), now as int, threshold_secs))
                && (warning matches Some(m) ==> m@ == warning_message_spec(
                class.course_code@,
                class.name@,
                minutes_until_spec(window.ends_at as int, now as int),
                old(self).attempt,
                result is Err,
            ))),
    {
        let invalidate = match result {
            Err(e) => e.is_session_failure(),
            Ok(_) => false,
        };
        let outcome_confirmed = match result {
            Ok(s) => s.is_confirmed(),
            Err(_) => false,
        };
        if outcome_confirmed {
            return (Round::Confirmed, invalidate);
        }
        let outcome_closed = match result {
            Ok(s) => s.is_closed(),
            Err(_) => false,
        };
        if outcome_closed {
            return (Round::Stop, invalidate);
        }
        let had_error = match result {
            Err(_) => true,
            Ok(_) => false,
        };
        let warning = if should_warn(window, now, threshold_secs, self.warning_sent) {
            let remaining = minutes_until(window.ends_at, now);
            let message = warning_message(class, remaining, self.attempt, had_error);
            self.warning_sent = true;
            Some(message)
        } else {
            None
        };
        self.attempt = if self.attempt == u32::MAX {
            u32::MAX
        } else {
            self.attempt + 1
        };
        (Round::Continue { warning }, invalidate)
    }

    /// How polling ended without a confirmation, and the failure notice.
    pub fn finish(&self, class: &ScheduledClass) -> (r: (AttendanceOutcome, String))
        ensures
            r.0 == (AttendanceOutcome::Unconfirmed { attempts: self.attempt }),
            r.1@ == failed_message_spec(class.course_code@, self.attempt),
    {
        (AttendanceOutcome::Unconfirmed { attempts: self.attempt }, failed_message(class, self.attempt))
    }
}

/// How many warnings a run of rounds sends, starting from `st`; the run ends
/// at the first answer that ends polling.
pub open spec fn warnings_sent(
    st: PollState,
    window: ClassWindow,
    rounds: Seq<(Seen, int)>,
    threshold_secs: u64,
) -> nat
    decreases rounds.len(),
{
    if rounds.len() == 0 {
        0
    } else {
        let (seen, now) = rounds[0];
        if ends_polling(seen) {
            0
        } else {
            (if warns(st, window, seen, now, threshold_secs) {
                1nat
            } else {
                0nat
            }) + warnings_sent(
                state_after(st, window, seen, now, threshold_secs),
                window,
                rounds.drop_first(),
                threshold_secs,
            )
        }
    }
}

/// How a run of rounds ends, starting from `st`: confirmed at the first
/// confirmation, else unconfirmed with the attempts counted when a closed
/// window or the end of the rounds stops it.
pub open spec fn run_outcome(
    st: PollState,
    window: ClassWindow,
    rounds: Seq<(Seen, int)>,
    threshold_secs: u64,
) -> AttendanceOutcome
    decreases rounds.len(),
{
    if rounds.len() == 0 {
        AttendanceOutcome::Unconfirmed { attempts: st.attempt }
    } else {
        let (seen, now) = rounds[0];
        if seen is Confirmed {
            AttendanceOutcome::Confirmed
        } else if seen is Closed {
            AttendanceOutcome::Unconfirmed { attempts: st.attempt }
        } else {
            run_outcome(
                state_after(st, window, seen, now, threshold_secs),
                window,
                rounds.drop_first(),
                threshold_secs,
            )
        }
    }
}

/// The "nearly over" warning goes out at most once per class: whatever the
/// answers and the clock, a run that starts without a warning sends at most
/// one, and a run that starts after it sends none.
pub proof fn lemma_warning_at_most_once(
    st: PollState,
    window: ClassWindow,
    rounds: Seq<(Seen, int)>,
    threshold_secs: u64,
)
    ensures
        warnings_sent(st, window, rounds, threshold_secs) <= (if st.warning_sent {
            0nat
        } else {
            1nat
        }),
    decreases rounds.len(),
{
    if rounds.len() > 0 {
        let (seen, now) = rounds[0];
        if !ends_polling(seen) {
            lemma_warning_at_most_once(
                state_after(st, window, seen, now, threshold_secs),
                window,
                rounds.drop_first(),
                threshold_secs,
            );
        }
    }
}

/// Once a submission is confirmed the run ends confirmed, so no failure
/// notice follows a success: the answers after it, and the clock, make no
/// difference.
pub proof fn lemma_confirmation_is_final(
    st: PollState,
    window: ClassWindow,
    before: Seq<(Seen, int)>,
    now: int,
    after: Seq<(Seen, int)>,
    threshold_secs: u64,
)
    requires
        forall|i: int| 0 <= i < before.len() ==> !ends_polling(#[trigger] before[i].0),
    ensures
        run_outcome(st, window, before + seq![(Seen::Confirmed, now)] + after, threshold_secs)
            == AttendanceOutcome::Confirmed,
    decreases before.len(),
{
    let rounds = before + seq![(Seen::Confirmed, now)] + after;
    if before.len() == 0 {
        assert(rounds[0] == (Seen::Confirmed, now));
    } else {
        let (seen, t) = before[0];
        assert(rounds[0] == before[0]);
        assert(!ends_polling(seen));
        let rest = before.drop_first();
        assert(rounds.drop_first() =~= rest + seq![(Seen::Confirmed, now)] + after);
        lemma_confirmation_is_final(
            state_after(st, window, seen, t, threshold_secs),
            window,
            rest,
            now,
            after,
            threshold_secs,
        );
    }
}

/// A run that never sees a confirmation ends unconfirmed, with one attempt
/// counted per unanswered round up to a closed window.
pub proof fn lemma_unconfirmed_without_confirmation(
    st: PollState,
    window: ClassWindow,
    rounds: Seq<(Seen, int)>,
    threshold_secs: u64,
)
    requires
        forall|i: int| 0 <= i < rounds.len() ==> !(#[trigger] rounds[i].0 is Confirmed),
    ensures
        run_outcome(st, window, rounds, threshold_secs) is Unconfirmed,
    decreases rounds.len(),
{
    if rounds.len() > 0 {
        let (seen, now) = rounds[0];
        if !(seen is Closed) {
            assert forall|i: int| 0 <= i < rounds.drop_first().len() implies !(
            #[trigger] rounds.drop_first()[i].0 is Confirmed) by {
                assert(rounds.drop_first()[i] == rounds[i + 1]);
            }
            lemma_unconfirmed_without_confirmation(
                state_after(st, window, seen, now, threshold_secs),
                window,
                rounds.drop_first(),
                threshold_secs,
            );
        }
    }
}

} // verus!
