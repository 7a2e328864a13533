use hkmu_ole_attendance::attendance::{ClassWindow, Submission};
use hkmu_ole_attendance::error::{PortError, SessionFailure};
use hkmu_ole_attendance::poll::{keep_polling, start_step, AttendanceOutcome, PollState, Round, StartStep};
use hkmu_ole_attendance::schedule::{Course, Outcome, ScheduledClass, Session, Timetable};
use hkmu_ole_attendance::setup::{
    conclude_setup, cycle_error_message, setup_error_message, FetchStep, Retrier, RetryPolicy,
    SetupOutcome,
};
use hkmu_ole_attendance::time::{CivilDate, CivilDateTime};

fn hkt(stamp: &str) -> i64 {
    stamp.parse::<jiff::Timestamp>().expect("valid timestamp").as_second()
}

fn class() -> ScheduledClass {
    ScheduledClass {
        termcode: "2604".to_owned(),
        course_code: "ELEC3050SEF".to_owned(),
        name: "Lecture".to_owned(),
        starts_at: CivilDateTime { year: 2026, month: 9, day: 21, hour: 11, minute: 0, second: 0 },
        ends_at: Some(CivilDateTime { year: 2026, month: 9, day: 21, hour: 12, minute: 0, second: 0 }),
        group: "L01".to_owned(),
        venue: "V".to_owned(),
    }
}

fn window() -> ClassWindow {
    ClassWindow { starts_at: hkt("2026-09-21T11:00:00+08:00"), ends_at: hkt("2026-09-21T12:00:00+08:00") }
}

#[test]
fn an_already_finished_class_is_skipped() {
    assert_eq!(start_step(Some(window()), hkt("2026-09-21T13:00:00+08:00")), StartStep::AlreadyOver);
    assert_eq!(start_step(None, 0), StartStep::AlreadyOver);
    assert_eq!(start_step(Some(window()), hkt("2026-09-21T10:59:00+08:00")), StartStep::Wait(60));
    assert_eq!(start_step(Some(window()), hkt("2026-09-21T11:00:00+08:00")), StartStep::Begin);
}

#[test]
fn a_confirmation_ends_polling_without_a_failure() {
    let mut st = PollState::new();
    let now = hkt("2026-09-21T11:30:00+08:00");
    assert!(keep_polling(&window(), now));
    let (round, invalidate) = st.after_submission(&class(), &window(), &Ok(Submission::Confirmed), now, 1800);
    assert!(matches!(round, Round::Confirmed));
    assert!(!invalidate);
    assert_eq!(st.attempt, 0);
}

#[test]
fn a_revoked_session_is_discarded_and_counted_as_an_attempt() {
    let mut st = PollState::new();
    let now = hkt("2026-09-21T11:00:00+08:00");
    let lost = Err(PortError::Session(SessionFailure::Expired("revoked".to_owned())));
    let (round, invalidate) = st.after_submission(&class(), &window(), &lost, now, 1800);
    assert!(invalidate);
    assert!(matches!(round, Round::Continue { warning: None }));
    assert_eq!(st.attempt, 1);
    let blip = Err(PortError::Transport("reset".to_owned()));
    let (_, invalidate) = st.after_submission(&class(), &window(), &blip, now, 1800);
    assert!(!invalidate);
    assert_eq!(st.attempt, 2);
}

#[test]
fn a_closed_window_stops_polling_early() {
    let mut st = PollState::new();
    let (round, _) = st.after_submission(
        &class(),
        &window(),
        &Ok(Submission::Closed),
        hkt("2026-09-21T11:30:00+08:00"),
        1800,
    );
    assert!(matches!(round, Round::Stop));
    let (outcome, notice) = st.finish(&class());
    assert_eq!(outcome, AttendanceOutcome::Unconfirmed { attempts: 0 });
    assert!(notice.starts_with("**- Attendance FAILED**"));
}

#[test]
fn emits_the_nearly_over_warning_at_most_once() {
    let mut st = PollState::new();
    let mut warnings = Vec::new();
    for minute in [35, 40, 45, 50, 55] {
        let now = hkt(&format!("2026-09-21T11:{minute}:00+08:00"));
        let (round, _) = st.after_submission(&class(), &window(), &Ok(Submission::NotYet), now, 1800);
        if let Round::Continue { warning: Some(w) } = round {
            warnings.push(w);
        }
    }
    assert_eq!(warnings.len(), 1, "expected one warning, got {warnings:?}");
    assert!(warnings[0].starts_with("**- ATTENDANCE WARNING**"));
    assert!(warnings[0].contains("Only 25 minutes remaining!"));
    assert_eq!(st.attempt, 5);
    assert!(st.warning_sent);
}

fn timetable(success: bool) -> Timetable {
    Timetable {
        outcome: if success { Outcome::Success } else { Outcome::Rejected { reason: Some("9901: nope".to_owned()) } },
        courses: vec![Course {
            termcode: "2604".to_owned(),
            course_code: "A".to_owned(),
            sessions: vec![Session {
                name: "Lab".to_owned(),
                datetime: "2026-09-21 09:00".to_owned(),
                endtime: String::new(),
                group: String::new(),
                venue: "R".to_owned(),
            }],
        }],
    }
}

#[test]
fn a_successful_payload_flows_straight_through() {
    let (mut retrier, first) = Retrier::start(RetryPolicy { attempts: 3, delay_secs: 30 });
    assert!(matches!(first, FetchStep::Fetch { sleep_secs: None }));
    let (step, invalidate) = retrier.record(Ok(timetable(true)));
    assert!(!invalidate);
    assert!(matches!(step, FetchStep::Done(_)));
}

#[test]
fn a_rejected_payload_discards_the_session_and_retries() {
    let (mut retrier, _) = Retrier::start(RetryPolicy { attempts: 2, delay_secs: 30 });
    let (step, invalidate) = retrier.record(Ok(timetable(false)));
    assert!(invalidate);
    assert!(matches!(step, FetchStep::Fetch { sleep_secs: Some(30) }));
    let (step, invalidate) = retrier.record(Ok(timetable(false)));
    assert!(invalidate);
    match step {
        FetchStep::GaveUp(e) => assert_eq!(e, PortError::Remote("9901: nope".to_owned())),
        _ => panic!("expected to give up"),
    }
}

#[test]
fn a_transport_error_does_not_discard_a_working_session() {
    let (mut retrier, _) = Retrier::start(RetryPolicy { attempts: 1, delay_secs: 5 });
    let (step, invalidate) = retrier.record(Err(PortError::Transport("timeout".to_owned())));
    assert!(!invalidate);
    assert!(matches!(step, FetchStep::GaveUp(PortError::Transport(_))));
}

#[test]
fn exhausting_every_attempt_reports_failure_and_notifies() {
    let (_, step) = Retrier::start(RetryPolicy { attempts: 0, delay_secs: 5 });
    match step {
        FetchStep::GaveUp(e) => {
            assert_eq!(e, PortError::Remote("no attempt produced a payload".to_owned()));
            assert_eq!(
                setup_error_message("2026-09-21 03:00:00 HKT", &e),
                "**Daily Setup Error**\nDate: 2026-09-21 03:00:00 HKT\nError: remote service error: no attempt produced a payload"
            );
            assert_eq!(
                cycle_error_message(&e),
                "**Daily Setup Error**\nError: remote service error: no attempt produced a payload"
            );
        }
        _ => panic!("expected to give up at once"),
    }
}

#[test]
fn concluding_a_setup_reports_the_class_list() {
    let day = CivilDate { year: 2026, month: 9, day: 21 };
    let (message, outcome) = conclude_setup(&timetable(true), day, "S");
    assert!(message.contains("> **A** - Lab"));
    match outcome {
        SetupOutcome::Ready(schedule) => assert_eq!(schedule.classes.len(), 1),
        SetupOutcome::Unusable { .. } => panic!("expected a ready schedule"),
    }
    let (message, outcome) = conclude_setup(&timetable(false), day, "S");
    assert_eq!(message, "Failed to retrieve class information");
    match outcome {
        SetupOutcome::Unusable { reason } => assert_eq!(reason, "9901: nope"),
        SetupOutcome::Ready(_) => panic!("expected an unusable outcome"),
    }
}
