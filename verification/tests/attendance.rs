use hkmu_ole_attendance::attendance::{
    confirmed_message, failed_message, next_action, should_warn, warning_message, Action,
    ClassWindow, Submission,
};
use hkmu_ole_attendance::schedule::ScheduledClass;
use hkmu_ole_attendance::time::CivilDateTime;

fn at(h: i8, m: i8) -> CivilDateTime {
    CivilDateTime { year: 2026, month: 9, day: 21, hour: h, minute: m, second: 0 }
}

fn class() -> ScheduledClass {
    ScheduledClass {
        termcode: "2604".to_owned(),
        course_code: "ELEC3050SEF".to_owned(),
        name: "Lecture ( Full Time )".to_owned(),
        starts_at: at(11, 0),
        ends_at: Some(at(12, 50)),
        group: "L01".to_owned(),
        venue: "HKMU C0G01".to_owned(),
    }
}

fn zone() -> jiff::tz::TimeZone {
    jiff::tz::TimeZone::get("Asia/Hong_Kong").expect("tz")
}

fn hkt(stamp: &str) -> i64 {
    stamp.parse::<jiff::Timestamp>().expect("valid timestamp").as_second()
}

fn window() -> ClassWindow {
    ClassWindow::resolve(&class(), 10800, &zone()).expect("resolves")
}

#[test]
fn classifies_a_confirmed_submission() {
    assert!(Submission::classify("success|2026-09-21 09:03|Present|btn1").is_confirmed());
    assert!(Submission::classify("present").is_confirmed());
    assert!(Submission::classify("active").is_confirmed());
}

#[test]
fn does_not_treat_the_success_envelope_as_confirmation() {
    let outcome = Submission::classify("success|2026-09-21 09:03|Absent|btn1");
    assert!(!outcome.is_confirmed());
    assert_eq!(outcome, Submission::NotYet);
}

#[test]
fn classifies_a_closed_submission_window() {
    let outcome = Submission::classify("submission closed-11504");
    assert_eq!(outcome, Submission::Closed);
    assert!(!outcome.is_confirmed());
}

#[test]
fn closed_takes_precedence_over_a_status_token() {
    assert_eq!(Submission::classify("submission closed: present"), Submission::Closed);
}

#[test]
fn preserves_an_unrecognised_response_for_diagnostics() {
    assert_eq!(
        Submission::classify("something new"),
        Submission::Unknown("something new".to_owned())
    );
}

#[test]
fn waits_until_the_class_starts() {
    let now = hkt("2026-09-21T10:00:00+08:00");
    assert_eq!(next_action(&window(), now, false), Action::Wait(3600));
}

#[test]
fn polls_once_the_class_is_running() {
    let now = hkt("2026-09-21T11:30:00+08:00");
    assert_eq!(next_action(&window(), now, false), Action::Poll);
}

#[test]
fn finishes_once_the_class_is_over() {
    let now = hkt("2026-09-21T13:00:00+08:00");
    assert_eq!(next_action(&window(), now, false), Action::Finished);
}

#[test]
fn confirmation_short_circuits_even_mid_class() {
    let now = hkt("2026-09-21T11:30:00+08:00");
    assert_eq!(next_action(&window(), now, true), Action::Finished);
}

#[test]
fn reports_minutes_elapsed_since_start_and_end() {
    let now = hkt("2026-09-21T13:10:00+08:00");
    assert_eq!(window().minutes_since_start(now), 130);
    assert_eq!(window().minutes_since_end(now), 20);
}

#[test]
fn warning_is_not_due_while_the_class_is_young() {
    let now = hkt("2026-09-21T11:30:00+08:00");
    assert!(!should_warn(&window(), now, 1800, false));
}

#[test]
fn warning_is_due_inside_the_threshold() {
    let now = hkt("2026-09-21T12:30:00+08:00");
    assert!(should_warn(&window(), now, 1800, false));
}

#[test]
fn warning_fires_only_once() {
    let now = hkt("2026-09-21T12:30:00+08:00");
    assert!(!should_warn(&window(), now, 1800, true));
}

#[test]
fn renders_the_warning_with_and_without_an_error() {
    let clean = warning_message(&class(), 20, 2, false);
    let errored = warning_message(&class(), 20, 2, true);
    assert!(clean.contains("> Attempts so far: 3"));
    assert!(!clean.contains("Total attempts"));
    assert!(errored.contains("ERROR occurred during attempt 3"));
    assert!(errored.contains("Total attempts: 3"));
}

#[test]
fn renders_the_confirmed_and_failed_bodies() {
    let confirmed = confirmed_message(&class(), "2026-09-21 11:03:00 HKT");
    let failed = failed_message(&class(), 7);
    assert!(confirmed.starts_with("**- Attendance Confirmed!**"));
    assert!(confirmed.contains("> Course: ELEC3050SEF"));
    assert!(confirmed.contains("> Status: Attendance successfully submitted"));
    assert!(failed.starts_with("**- Attendance FAILED**"));
    assert!(failed.contains("> Total attempts: 7"));
}

#[test]
fn resolves_the_window_to_hong_kong_instants() {
    let w = window();
    assert_eq!(w.starts_at, hkt("2026-09-21T11:00:00+08:00"));
    assert_eq!(w.ends_at, hkt("2026-09-21T12:50:00+08:00"));
    assert!(w.is_over(w.ends_at));
    assert!(!w.is_over(w.ends_at - 1));
}

#[test]
fn falls_back_to_the_default_length_without_an_end() {
    let mut c = class();
    c.ends_at = None;
    let w = ClassWindow::resolve(&c, 3600, &zone()).expect("resolves");
    assert_eq!(w.ends_at - w.starts_at, 3600);
}

#[test]
fn keeps_the_first_characters_of_a_long_unknown_body() {
    let body = format!("  {}  ", "x".repeat(200));
    match Submission::classify(&body) {
        Submission::Unknown(kept) => assert_eq!(kept, "x".repeat(120)),
        other => panic!("unexpected {other:?}"),
    }
    assert_eq!(Submission::classify("A|B"), Submission::NotYet);
    assert_eq!(Submission::classify("PRESENT"), Submission::Confirmed);
}

#[test]
fn describes_each_submission_outcome() {
    assert_eq!(Submission::Confirmed.text(), "confirmed");
    assert_eq!(Submission::Closed.text(), "submission window closed");
    assert_eq!(Submission::NotYet.text(), "not yet recorded");
    assert_eq!(Submission::Unknown("b".to_owned()).text(), "unrecognised response: b");
}

#[test]
fn renders_the_warning_exactly() {
    assert_eq!(
        warning_message(&class(), -5, u32::MAX, false),
        "**- ATTENDANCE WARNING**\n> Course: ELEC3050SEF\n> Class: Lecture ( Full Time )\n\
         > Only -5 minutes remaining!\n> Attempts so far: 4294967295"
    );
    assert_eq!(
        failed_message(&class(), 0),
        "**- Attendance FAILED**\n> Course: ELEC3050SEF\n> Status: Attendance submission not confirmed by end of class\n> Total attempts: 0"
    );
}

#[test]
fn resolves_in_utc_to_the_civil_times_read_as_utc() {
    let w = ClassWindow::resolve(&class(), 10800, &jiff::tz::TimeZone::UTC).expect("resolves");
    assert_eq!(w.starts_at, hkt("2026-09-21T11:00:00Z"));
    assert_eq!(w.ends_at, hkt("2026-09-21T12:50:00Z"));
    let hk = window();
    assert_eq!(w.starts_at - hk.starts_at, 8 * 3600);
}
