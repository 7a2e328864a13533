use hkmu_ole_attendance::time::{
    class_end, duration_until_next, effective_end, fallback_end, minutes_until, parse_class_time,
    seconds_until, CivilDate, CivilDateTime, TimeOfDay, ZonedTime,
};

fn at(y: i16, mo: i8, d: i8, h: i8, mi: i8) -> CivilDateTime {
    CivilDateTime { year: y, month: mo, day: d, hour: h, minute: mi, second: 0 }
}

fn zone() -> jiff::tz::TimeZone {
    jiff::tz::TimeZone::get("Asia/Hong_Kong").expect("valid tz")
}

fn zoned(stamp: &str, tz: &jiff::tz::TimeZone) -> ZonedTime {
    let z = stamp
        .parse::<jiff::Timestamp>()
        .expect("valid timestamp")
        .to_zoned(tz.clone());
    let d = z.datetime();
    ZonedTime {
        timestamp: z.timestamp().as_second(),
        civil: CivilDateTime {
            year: d.year(),
            month: d.month(),
            day: d.day(),
            hour: d.hour(),
            minute: d.minute(),
            second: d.second(),
        },
    }
}

fn hkt(stamp: &str) -> ZonedTime {
    zoned(stamp, &zone())
}

fn secs(stamp: &str) -> i64 {
    stamp.parse::<jiff::Timestamp>().expect("valid timestamp").as_second()
}

#[test]
fn time_parses_zero_padded_time() {
    let parsed = TimeOfDay::parse("03:00").expect("03:00 is valid");
    assert_eq!((parsed.hour(), parsed.minute()), (3, 0));
    assert_eq!(parsed.to_text(), "03:00");
}

#[test]
fn parses_single_digit_hour_and_strips_a_comment() {
    let parsed = TimeOfDay::parse("3:05 # HKT daily").expect("tolerated");
    assert_eq!(parsed.to_text(), "03:05");
}

#[test]
fn rejects_out_of_range_and_non_numeric_times() {
    assert!(TimeOfDay::parse("24:00").is_err());
    assert!(TimeOfDay::parse("12:60").is_err());
    assert!(TimeOfDay::parse("noon").is_err());
}

#[test]
fn parses_the_ole_timestamp_format() {
    let parsed = parse_class_time("2026-09-21 09:00").expect("valid");
    assert_eq!(parsed.date(), CivilDate { year: 2026, month: 9, day: 21 });
    assert_eq!((parsed.hour, parsed.minute), (9, 0));
}

#[test]
fn rejects_a_malformed_timestamp() {
    assert!(parse_class_time("not a time").is_err());
    assert!(parse_class_time("").is_err());
}

#[test]
fn fallback_end_uses_the_configured_duration() {
    let start = at(2026, 9, 21, 9, 0);
    let end = fallback_end(start, 3 * 3600);
    assert_eq!(end, at(2026, 9, 21, 12, 0));
}

#[test]
fn class_end_prefers_the_supplied_end_time() {
    let start = at(2026, 9, 21, 9, 0);
    let end = at(2026, 9, 21, 9, 50);
    let resolved = class_end(start, Some(end), 10800, &zone()).expect("resolves in this zone");
    assert_eq!(resolved.civil, end);
    assert_eq!(effective_end(start, Some(end), 10800), end);
}

#[test]
fn class_end_falls_back_when_no_end_time_is_supplied() {
    let start = at(2026, 9, 21, 9, 0);
    let resolved = class_end(start, None, 10800, &zone()).expect("resolves in this zone");
    assert_eq!(resolved.civil, at(2026, 9, 21, 12, 0));
}

#[test]
fn targets_later_the_same_day_when_the_time_is_still_ahead() {
    let now = hkt("2026-09-21T02:00:00+08:00");
    let wait = duration_until_next(TimeOfDay::parse("03:00").expect("valid"), &now, &zone());
    assert_eq!(wait, 3600);
}

#[test]
fn rolls_over_to_tomorrow_when_the_time_has_passed() {
    let now = hkt("2026-09-21T04:00:00+08:00");
    let wait = duration_until_next(TimeOfDay::parse("03:00").expect("valid"), &now, &zone());
    assert_eq!(wait, 23 * 3600);
}

#[test]
fn never_returns_a_zero_wait_at_the_exact_schedule_minute() {
    let now = hkt("2026-09-21T03:00:00+08:00");
    let seconds = seconds_until(TimeOfDay::parse("03:00").expect("valid"), &now, &zone());
    assert!(seconds > 0, "expected a positive wait, got {seconds}");
    assert_eq!(seconds, 24 * 3600);
}

#[test]
fn minutes_until_saturates_and_reports_whole_minutes() {
    let now = secs("2026-09-21T10:00:00+08:00");
    let past = secs("2026-09-21T09:00:00+08:00");
    let later = secs("2026-09-21T11:30:00+08:00");
    assert_eq!(minutes_until(past, now), 0);
    assert_eq!(minutes_until(later, now), 90);
    assert_eq!(minutes_until(i64::MAX, i64::MIN), i64::MAX / 60);
}

#[test]
fn respects_the_timezone_it_is_given() {
    let hk = hkt("2026-09-21T00:00:00+08:00");
    let utc_zone = jiff::tz::TimeZone::UTC;
    let utc = zoned("2026-09-21T00:00:00+08:00", &utc_zone);
    let at = TimeOfDay::parse("00:30").expect("valid");
    assert_ne!(seconds_until(at, &hk, &zone()), seconds_until(at, &utc, &utc_zone));
}

#[test]
fn places_a_civil_time_in_hong_kong() {
    let placed = class_end(at(2026, 9, 21, 9, 0), Some(at(2026, 9, 21, 11, 0)), 0, &zone())
        .expect("placed");
    assert_eq!(placed.timestamp, secs("2026-09-21T11:00:00+08:00"));
    assert_eq!(placed.civil, at(2026, 9, 21, 11, 0));
}

#[test]
fn rendering_and_parsing_a_time_of_day_round_trips() {
    for text in ["00:00", "09:05", "23:59"] {
        let parsed = TimeOfDay::parse(text).expect("valid");
        assert_eq!(parsed.to_text(), text);
        assert_eq!(TimeOfDay::parse(&parsed.to_text()).expect("valid"), parsed);
    }
}

#[test]
fn reports_why_a_time_of_day_was_rejected() {
    let reason = |raw: &str| TimeOfDay::parse(raw).expect_err("rejected").message();
    assert_eq!(reason("noon"), "invalid time of day \"noon\": expected HH:MM");
    assert_eq!(reason("x:00"), "invalid time of day \"x:00\": bad hour");
    assert_eq!(reason("1:y"), "invalid time of day \"1:y\": bad minute");
    assert_eq!(reason("24:00"), "invalid time of day \"24:00\": out of range");
}

#[test]
fn orders_datetimes_field_by_field() {
    assert!(at(2026, 9, 21, 9, 0).is_before(&at(2026, 9, 21, 10, 0)));
    assert!(at(2025, 12, 31, 23, 59).is_before(&at(2026, 1, 1, 0, 0)));
    assert!(!at(2026, 9, 21, 9, 0).is_before(&at(2026, 9, 21, 9, 0)));
}

#[test]
fn waits_until_the_next_occurrence_in_utc() {
    let utc_zone = jiff::tz::TimeZone::UTC;
    let now = zoned("2026-09-21T00:00:00Z", &utc_zone);
    let at = TimeOfDay::parse("00:30").expect("valid");
    assert_eq!(seconds_until(at, &now, &utc_zone), 1800);
    let later = zoned("2026-09-21T00:45:00Z", &utc_zone);
    assert_eq!(duration_until_next(at, &later, &utc_zone), 24 * 3600 - 900);
}

#[test]
fn rolls_over_month_year_and_leap_day_ends() {
    let at3 = TimeOfDay::parse("03:00").expect("valid");
    let leap = hkt("2028-02-28T04:00:00+08:00");
    assert_eq!(seconds_until(at3, &leap, &zone()), 23 * 3600);
    let year_end = hkt("2026-12-31T04:00:00+08:00");
    assert_eq!(seconds_until(at3, &year_end, &zone()), 23 * 3600);
}

#[test]
fn accepts_only_real_calendar_dates() {
    assert!(at(2028, 2, 29, 0, 0).is_valid());
    assert!(!at(2026, 2, 29, 0, 0).is_valid());
    assert!(!at(2100, 2, 29, 0, 0).is_valid());
    assert!(at(2000, 2, 29, 0, 0).is_valid());
    assert!(!at(2026, 4, 31, 0, 0).is_valid());
    assert!(at(2026, 12, 31, 23, 59).is_valid());
}

#[test]
fn places_class_ends_across_the_whole_supported_range() {
    let early = class_end(at(-9998, 1, 1, 0, 0), None, 0, &zone()).expect("placeable");
    assert_eq!(early.civil.year, -9998);
    let late = class_end(at(9998, 12, 31, 23, 0), None, 0, &zone()).expect("placeable");
    assert_eq!(late.civil.year, 9998);
}

#[test]
fn fallback_end_carries_minutes_into_the_date() {
    assert_eq!(fallback_end(at(2026, 2, 28, 23, 0), 7200), at(2026, 3, 1, 1, 0));
    assert_eq!(fallback_end(at(2028, 2, 28, 23, 30), 3600), at(2028, 2, 29, 0, 30));
    assert_eq!(fallback_end(at(9999, 12, 31, 23, 0), 7200), at(9999, 12, 31, 23, 0));
}
