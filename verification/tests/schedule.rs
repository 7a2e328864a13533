use hkmu_ole_attendance::schedule::{
    format_classes_message, select_day, ClassInfo, Course, DaySchedule, Outcome, ScheduledClass,
    Session, Timetable,
};
use hkmu_ole_attendance::time::{CivilDate, CivilDateTime};
use hkmu_ole_attendance::wire::{summarise, WireCourse, WireResponse, WireResult, WireSession};

fn day() -> CivilDate {
    CivilDate { year: 2026, month: 9, day: 21 }
}

fn timetable(sessions: Vec<Session>) -> Timetable {
    Timetable {
        outcome: Outcome::Success,
        courses: vec![Course { termcode: "2604".to_owned(), course_code: "A".to_owned(), sessions }],
    }
}

fn session(name: &str, datetime: &str, endtime: &str) -> Session {
    Session {
        name: name.to_owned(),
        datetime: datetime.to_owned(),
        endtime: endtime.to_owned(),
        group: "L01".to_owned(),
        venue: "R1".to_owned(),
    }
}

fn names(schedule: &DaySchedule) -> Vec<&str> {
    schedule.classes.iter().map(|c| c.name.as_str()).collect()
}

#[test]
fn keeps_only_sessions_on_the_target_day() {
    let source = timetable(vec![
        session("Today", "2026-09-21 09:00", "2026-09-21 10:00"),
        session("Tomorrow", "2026-09-22 09:00", "2026-09-22 10:00"),
    ]);
    let schedule = select_day(&source, day());
    assert_eq!(schedule.classes.len(), 1);
    assert_eq!(schedule.classes.first().expect("class").name, "Today");
}

#[test]
fn drops_a_session_whose_time_cannot_be_parsed() {
    let source = timetable(vec![
        session("Broken", "whenever", ""),
        session("Valid", "2026-09-21 09:00", ""),
    ]);
    let schedule = select_day(&source, day());
    assert_eq!(schedule.classes.len(), 1);
    assert_eq!(schedule.classes.first().expect("class").name, "Valid");
}

#[test]
fn orders_sessions_by_start_time() {
    let source = timetable(vec![
        session("Late", "2026-09-21 15:00", ""),
        session("Early", "2026-09-21 09:00", ""),
    ]);
    let schedule = select_day(&source, day());
    assert_eq!(names(&schedule), ["Early", "Late"]);
}

#[test]
fn skips_a_course_missing_its_identifiers() {
    let source = Timetable {
        outcome: Outcome::Success,
        courses: vec![
            Course {
                termcode: String::new(),
                course_code: "A".to_owned(),
                sessions: vec![session("Orphan", "2026-09-21 09:00", "")],
            },
            Course {
                termcode: "2604".to_owned(),
                course_code: "B".to_owned(),
                sessions: vec![session("Kept", "2026-09-21 10:00", "")],
            },
        ],
    };
    let schedule = select_day(&source, day());
    assert_eq!(schedule.classes.len(), 1);
    assert_eq!(schedule.classes.first().expect("class").course_code, "B");
}

#[test]
fn reports_the_refusal_reason() {
    let rejected = Timetable {
        outcome: Outcome::Rejected { reason: Some("9901: nope".to_owned()) },
        courses: Vec::new(),
    };
    assert!(!rejected.is_success());
    assert_eq!(rejected.error_summary().as_deref(), Some("9901: nope"));
}

#[test]
fn reports_failure_and_empty_states_verbatim() {
    let failed = select_day(
        &Timetable { outcome: Outcome::Rejected { reason: None }, courses: Vec::new() },
        day(),
    );
    let empty = select_day(&timetable(Vec::new()), day());
    assert_eq!(format_classes_message(&failed, "T"), "Failed to retrieve class information");
    assert_eq!(format_classes_message(&empty, "T"), "No classes scheduled for today!");
}

#[test]
fn renders_the_class_list_message() {
    let source = timetable(vec![Session {
        name: "PC Laboratory ( Full Time )".to_owned(),
        datetime: "2026-09-21 09:00".to_owned(),
        endtime: "2026-09-21 09:50".to_owned(),
        group: "P02".to_owned(),
        venue: "MUPC C0412".to_owned(),
    }]);
    let message = format_classes_message(&select_day(&source, day()), "S");
    assert!(message.starts_with("**Retrieved Classes:**\n`System Time: S`"));
    assert!(message.contains("> **A** - PC Laboratory ( Full Time )"));
    assert!(message.contains(">  TIME: 09:00 - 09:50"));
    assert!(message.contains(">  VENUE: MUPC C0412 (P02)"));
}

#[test]
fn renders_a_start_time_only_when_the_end_is_missing() {
    let source = timetable(vec![session("Open", "2026-09-21 09:00", "")]);
    let message = format_classes_message(&select_day(&source, day()), "S");
    assert!(message.contains(">  TIME: 09:00\n"));
}

#[test]
fn an_empty_schedule_is_still_successful() {
    let schedule: DaySchedule = select_day(&timetable(Vec::new()), day());
    assert!(schedule.is_success());
    assert!(schedule.classes.is_empty());
}

#[test]
fn renders_the_whole_message_exactly() {
    let mut s = session("Lab", "2026-09-21 09:00", "");
    s.group = String::new();
    let source = timetable(vec![s, session("Talk", "2026-09-21 08:00", "2026-09-21 08:45")]);
    let message = format_classes_message(&select_day(&source, day()), "2026-09-21 03:00:00 HKT");
    assert_eq!(
        message,
        "**Retrieved Classes:**\n`System Time: 2026-09-21 03:00:00 HKT`\n\n\
         > **A** - Talk\n>  TIME: 08:00 - 08:45\n>  VENUE: R1 (L01)\n\
         > **A** - Lab\n>  TIME: 09:00\n>  VENUE: R1\n"
    );
}

#[test]
fn keeps_listing_order_for_classes_that_start_together() {
    let source = timetable(vec![
        session("First", "2026-09-21 09:00", ""),
        session("Second", "2026-09-21 09:00", ""),
        session("Earlier", "2026-09-21 08:00", ""),
    ]);
    assert_eq!(names(&select_day(&source, day())), ["Earlier", "First", "Second"]);
}

#[test]
fn drops_an_unparseable_end_but_keeps_the_class() {
    let source = timetable(vec![session("Odd", "2026-09-21 09:00", "later")]);
    let schedule = select_day(&source, day());
    let class = schedule.classes.first().expect("class");
    assert_eq!(class.ends_at, None);
    assert_eq!(
        class.starts_at,
        CivilDateTime { year: 2026, month: 9, day: 21, hour: 9, minute: 0, second: 0 }
    );
}

#[test]
fn labels_a_class_by_course_and_name() {
    let class = ScheduledClass {
        termcode: "2604".to_owned(),
        course_code: "ELEC3050SEF".to_owned(),
        name: "Lecture".to_owned(),
        starts_at: CivilDateTime { year: 2026, month: 9, day: 21, hour: 11, minute: 0, second: 0 },
        ends_at: None,
        group: "L01".to_owned(),
        venue: "V".to_owned(),
    };
    assert_eq!(class.label(), "ELEC3050SEF - Lecture");
    let info = ClassInfo {
        termcode: "2604".to_owned(),
        course_code: "ELEC3050SEF".to_owned(),
        class_name: "Tutorial".to_owned(),
        starts_at: class.starts_at,
        ends_at: None,
        group: "T01".to_owned(),
        venue: "V".to_owned(),
        activities_url: "u".to_owned(),
    };
    assert_eq!(info.label(), "ELEC3050SEF - Tutorial");
}

fn wire_session(name: &str) -> WireSession {
    WireSession {
        name: name.to_owned(),
        datetime: "2026-09-21 09:00".to_owned(),
        endtime: "2026-09-21 09:50".to_owned(),
        group: "P02".to_owned(),
        venue: "MUPC C0412".to_owned(),
    }
}

#[test]
fn decodes_the_numeric_success_payload() {
    let wire = WireResponse {
        result: WireResult::Number(1),
        classes: vec![WireCourse {
            termcode: "2604".to_owned(),
            course_code: "COMP4930SEF".to_owned(),
            classes: vec![wire_session("PC Laboratory ( Full Time )")],
        }],
        error: None,
        errormsg: None,
    };
    let timetable = Timetable::from_wire(wire);
    assert!(matches!(timetable.outcome, Outcome::Success));
    assert!(timetable.is_success());
    assert_eq!(timetable.courses.len(), 1);
    assert_eq!(timetable.courses.first().expect("course").course_code, "COMP4930SEF");
    assert_eq!(timetable.courses[0].sessions[0].venue, "MUPC C0412");
}

#[test]
fn decodes_the_string_error_payload() {
    let wire = WireResponse {
        result: WireResult::Text("-1".to_owned()),
        classes: Vec::new(),
        error: Some("9901".to_owned()),
        errormsg: Some("The API is only for web users.".to_owned()),
    };
    let timetable = Timetable::from_wire(wire);
    assert!(!timetable.is_success());
    assert_eq!(
        timetable.error_summary().as_deref(),
        Some("9901: The API is only for web users.")
    );
}

#[test]
fn reads_a_textual_success_code() {
    assert!(WireResult::Text(" 1 ".to_owned()).is_success());
    assert!(!WireResult::Text("11".to_owned()).is_success());
    assert!(!WireResult::Number(-1).is_success());
}

#[test]
fn summarises_whichever_parts_the_api_sent() {
    assert_eq!(summarise(Some("1".to_owned()), Some("m".to_owned())).as_deref(), Some("1: m"));
    assert_eq!(summarise(Some("1".to_owned()), None).as_deref(), Some("1"));
    assert_eq!(summarise(None, Some("m".to_owned())).as_deref(), Some("m"));
    assert_eq!(summarise(None, None), None);
}
