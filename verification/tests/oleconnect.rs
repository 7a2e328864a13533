use hkmu_ole_attendance::error::AppError;
use hkmu_ole_attendance::gateway::{
    activities_url, check_submittable, join_query, probe_notice, probe_state, resolve_url,
    submit_url, ActivityState,
};
use hkmu_ole_attendance::oleconnect::{
    activity_document_url, activity_from_page, activity_is_open, begin_discovery,
    expected_class_id, order_tasks, task_links, Activity, DiscoveryScan, DiscoveryStart, TaskLink,
};
use hkmu_ole_attendance::schedule::ScheduledClass;
use hkmu_ole_attendance::setup::Notice;
use hkmu_ole_attendance::time::CivilDateTime;

fn class_at(group: &str, hour: i8) -> ScheduledClass {
    ScheduledClass {
        termcode: "2604".to_owned(),
        course_code: "ELEC3050SEF".to_owned(),
        name: "Lecture ( Full Time )".to_owned(),
        starts_at: CivilDateTime { year: 2026, month: 9, day: 21, hour, minute: 0, second: 0 },
        ends_at: Some(CivilDateTime { year: 2026, month: 9, day: 21, hour: 12, minute: 50, second: 0 }),
        group: group.to_owned(),
        venue: "HKMU C0G01".to_owned(),
    }
}

fn activity(take_url: Option<&str>) -> Activity {
    Activity {
        unid: "ABC123".to_owned(),
        attendance_type: "2".to_owned(),
        open: true,
        take_url: take_url.map(ToOwned::to_owned),
    }
}

#[test]
fn reads_an_inline_activity_from_the_list_page() {
    let page = r#"<script>var attendance_type="2"; var unid="ABC123";</script>"#;
    let activity = activity_from_page(page).expect("activity is present");
    assert_eq!(activity.unid, "ABC123");
    assert!(activity.is_attendance());
}

#[test]
fn finds_no_activity_on_the_task_list_page() {
    let page = r#"<script>var attendance_type=""; var unid="";</script>"#;
    assert!(activity_from_page(page).is_none());
}

#[test]
fn collects_task_links_with_their_class_ids() {
    let page = r#"<ul id="mytask_list">
            <li><a start='2026-09-21T02:57:40Z' href='356D6AE68EED315148258E7900104316' classid='L01-20260921-11:00-N'>QR Code</a></li>
            <li><a href='91CFC9EDB617604E48258E79001A994F' classid='T01-20260921-13:00-N'>QR Code</a></li>
        </ul>"#;
    let tasks = task_links(page);
    assert_eq!(tasks.len(), 2);
    assert_eq!(tasks.first().expect("first task").unid, "356D6AE68EED315148258E7900104316");
    assert_eq!(tasks.first().expect("first task").class_id, "L01-20260921-11:00-N");
    assert_eq!(tasks.get(1).expect("second task").class_id, "T01-20260921-13:00-N");
}

#[test]
fn ignores_task_links_that_are_not_document_ids() {
    let page = r"<li><a href='javascript:refresh_page()'>Refresh</a></li>";
    assert!(task_links(page).is_empty());
}

#[test]
fn derives_the_class_id_matching_the_live_markup() {
    let class_info = ScheduledClass { name: String::new(), venue: String::new(), ends_at: None, ..class_at("L01", 11) };
    assert_eq!(expected_class_id(&class_info), "L01-20260921-11:00");
    assert!("L01-20260921-11:00-N".starts_with(&expected_class_id(&class_info)));
}

#[test]
fn distinguishes_two_sessions_of_the_same_course() {
    let base = class_at("L01", 11);
    let tutorial = class_at("T01", 13);
    assert_ne!(expected_class_id(&base), expected_class_id(&tutorial));
    assert_eq!(expected_class_id(&tutorial), "T01-20260921-13:00");
    assert!("T01-20260921-13:00-N".starts_with(&expected_class_id(&tutorial)));
}

#[test]
fn defaults_coordinates_to_origin() {
    let a = Activity {
        unid: "ABC".to_owned(),
        attendance_type: "2".to_owned(),
        open: true,
        take_url: None,
    };
    assert!(a.is_attendance());
}

#[test]
fn reads_whether_an_activity_window_is_open() {
    assert!(activity_is_open("var time_left_second=30; var time_to_start_second=0;"));
    assert!(!activity_is_open("var time_left_second=0; var time_to_start_second=0;"));
    assert!(!activity_is_open("var time_left_second=30; var time_to_start_second=5;"));
    assert!(activity_is_open("var time_left_second=\"30\"; var time_to_start_second=-4;"));
    assert!(!activity_is_open("var time_left_second=soon;"));
}

#[test]
fn puts_the_class_own_task_first() {
    let tasks = vec![
        TaskLink { unid: "a".to_owned(), class_id: "T01-20260921-13:00-N".to_owned() },
        TaskLink { unid: "b".to_owned(), class_id: "L01-20260921-11:00-N".to_owned() },
        TaskLink { unid: "c".to_owned(), class_id: "X".to_owned() },
        TaskLink { unid: "d".to_owned(), class_id: "L01-20260921-11:00-Q".to_owned() },
    ];
    let ordered: Vec<String> =
        order_tasks(&tasks, "L01-20260921-11:00").into_iter().map(|t| t.unid).collect();
    assert_eq!(ordered, ["b", "d", "a", "c"]);
}

#[test]
fn builds_the_activity_document_url() {
    assert_eq!(
        activity_document_url(
            "https://iole.hkmu.edu.hk/course2604/ELEC3050SEF.nsf//class_activities_student?readform&",
            "ABC"
        ),
        "https://iole.hkmu.edu.hk/course2604/ELEC3050SEF.nsf/0/ABC?OpenDocument"
    );
    assert_eq!(activity_document_url("x", "U"), "x.nsf/0/U?OpenDocument");
}

#[test]
fn discovery_reports_a_revoked_session() {
    let page = r#"<form action="/nidp/idff/sso?x"></form><script>document.forms[0].submit();</script>"#;
    match begin_discovery(page, &class_at("L01", 11), "https://iole/x") {
        DiscoveryStart::Expired(AppError::SessionExpired(m)) => assert_eq!(
            m,
            "https://iole/x redirected to the login flow; the session was revoked server-side"
        ),
        _ => panic!("expected an expired session"),
    }
}

#[test]
fn discovery_scans_tasks_and_prefers_an_open_activity() {
    let list = "<a href='356D6AE68EED315148258E7900104316' classid='L01-20260921-11:00-N'>";
    let tasks = match begin_discovery(list, &class_at("L01", 11), "u") {
        DiscoveryStart::Scan(tasks) => tasks,
        _ => panic!("expected a task scan"),
    };
    assert_eq!(tasks.len(), 1);
    let mut scan = DiscoveryScan::new();
    let closed = r#"var unid="C1"; var attendance_type="2"; var time_left_second=0;"#;
    let other = r#"var unid="O1"; var attendance_type="1"; var time_left_second=9;"#;
    let open = r#"var unid="P1"; var attendance_type="2"; var time_left_second=9; var time_to_start_second=0;"#;
    assert!(scan.consider(closed).is_none());
    assert!(scan.consider(other).is_none());
    assert!(scan.consider("no activity here").is_none());
    assert_eq!(scan.fallback.as_ref().map(|a| a.unid.as_str()), Some("C1"));
    assert_eq!(scan.consider(open).map(|a| a.unid), Some("P1".to_owned()));
    assert_eq!(scan.conclude("u").expect("fallback").unid, "C1");
    match DiscoveryScan::new().conclude("https://p") {
        Err(AppError::Parse(m)) => assert_eq!(m, "no attendance activity found on https://p"),
        _ => panic!("expected a refusal"),
    }
}

#[test]
fn builds_the_class_activities_url_from_the_domain_class() {
    assert_eq!(
        activities_url("https://iole.hkmu.edu.hk/", &class_at("L01", 11)),
        "https://iole.hkmu.edu.hk/course2604/ELEC3050SEF.nsf//class_activities_student?readform&"
    );
}

#[test]
fn prefers_the_submit_url_the_page_declares() {
    let declared = "/course2604/ELEC3050SEF.nsf/class_activities_student?createdocument&puid=ABC";
    let built = submit_url(
        "https://iole.hkmu.edu.hk",
        &class_at("L01", 11),
        &activity(Some(declared)),
        "lat=22.3364&lng=114.1796",
    )
    .expect("builds");
    assert!(
        built.starts_with("https://iole.hkmu.edu.hk/course2604/ELEC3050SEF.nsf/class_activities_student?"),
        "got {built}"
    );
    assert!(built.contains("createdocument"));
    assert!(built.contains("puid=ABC"));
    assert!(built.contains("lat=22.3364"));
    assert!(built.contains("lng=114.1796"));
}

#[test]
fn the_fallback_never_asks_to_read_and_create_at_once() {
    let built = submit_url("https://iole.hkmu.edu.hk", &class_at("L01", 11), &activity(None), "lat=0&lng=0")
        .expect("builds");
    assert!(!built.contains("readform"), "a read request must not be combined with the create: {built}");
    assert_eq!(built.matches('?').count(), 1, "a URL carries one query string: {built}");
    assert!(built.contains("?createdocument&puid=ABC123"), "got {built}");
    assert_eq!(
        built,
        "https://iole.hkmu.edu.hk/course2604/ELEC3050SEF.nsf//class_activities_student?createdocument&puid=ABC123&lat=0&lng=0"
    );
}

#[test]
fn the_activity_state_distinguishes_absent_closed_and_open() {
    let open = ActivityState::Open;
    let closed = ActivityState::Closed;
    let absent = ActivityState::Absent;
    assert_ne!(open, closed);
    assert_ne!(closed, absent);
    assert_ne!(open, absent);
}

#[test]
fn probes_report_the_activity_state() {
    let mut a = activity(None);
    assert_eq!(probe_state(&a), ActivityState::Open);
    a.open = false;
    assert_eq!(probe_state(&a), ActivityState::Closed);
    a.attendance_type = "1".to_owned();
    assert_eq!(probe_state(&a), ActivityState::Absent);
    match check_submittable(&a) {
        Err(e) => assert_eq!(e.message(), "unexpected response: activity type 1 is not an attendance activity"),
        Ok(()) => panic!("must refuse"),
    }
    assert!(check_submittable(&activity(None)).is_ok());
}

#[test]
fn reports_a_probe_at_the_severity_it_deserves() {
    let class = class_at("L01", 11);
    assert_eq!(
        probe_notice(&class, &Ok(ActivityState::Open)),
        (Notice::Info, "ELEC3050SEF | attendance activity is open".to_owned())
    );
    assert_eq!(
        probe_notice(&class, &Ok(ActivityState::Closed)),
        (Notice::Warning, "ELEC3050SEF | attendance activity found but its window is closed".to_owned())
    );
    assert_eq!(
        probe_notice(&class, &Ok(ActivityState::Absent)),
        (Notice::Warning, "ELEC3050SEF | no attendance activity found".to_owned())
    );
    let failed = probe_notice(
        &class,
        &Err(hkmu_ole_attendance::error::PortError::Transport("timeout".to_owned())),
    );
    assert_eq!(failed, (Notice::Error, "ELEC3050SEF | probe failed: transport failure: timeout".to_owned()));
}

#[test]
fn joins_a_query_with_the_right_separator() {
    assert_eq!(join_query("https://x/a", "q=1"), "https://x/a?q=1");
    assert_eq!(join_query("https://x/a?p=0", "q=1"), "https://x/a?p=0&q=1");
}

#[test]
fn reports_an_unusable_submit_url() {
    let err = resolve_url("not a base", "/x").expect_err("base is not absolute");
    assert!(err.message().starts_with("remote service error: unusable submit URL /x: "));
    assert_eq!(resolve_url("https://iole.hkmu.edu.hk/a/b", "c").expect("resolves"), "https://iole.hkmu.edu.hk/a/c");
}
