use hkmu_ole_attendance::config::{
    env_opt, env_or, resolve_credentials, Config, Credentials, EnvValues, DEFAULT_TIMEZONE,
};
use hkmu_ole_attendance::error::AppError;
use hkmu_ole_attendance::time::TimeOfDay;

fn values() -> EnvValues {
    EnvValues {
        session_cookie: None,
        student_id: None,
        student_password: None,
        timezone: None,
        ole_url: None,
        nam_login_url: None,
        oleconnect_api_url: None,
        discord_webhook: None,
        schedule_time: None,
    }
}

fn config_message(env: &EnvValues) -> String {
    match Config::from_env(env) {
        Err(AppError::Config(m)) => m,
        Err(other) => panic!("unexpected error {other:?}"),
        Ok(_) => panic!("expected a refusal"),
    }
}

#[test]
fn config_parses_zero_padded_time() {
    let parsed = TimeOfDay::parse("03:00").expect("03:00 is valid");
    assert_eq!((parsed.hour(), parsed.minute()), (3, 0));
}

#[test]
fn parses_single_digit_hour() {
    let parsed = TimeOfDay::parse("3:05").expect("3:05 is valid");
    assert_eq!((parsed.hour(), parsed.minute()), (3, 5));
    assert_eq!(parsed.to_text(), "03:05");
}

#[test]
fn strips_inline_comment_from_value() {
    let parsed = TimeOfDay::parse("03:00 # HKT daily").expect("comment is tolerated");
    assert_eq!(parsed.to_text(), "03:00");
}

#[test]
fn rejects_out_of_range_time() {
    assert!(TimeOfDay::parse("24:00").is_err());
    assert!(TimeOfDay::parse("12:60").is_err());
}

#[test]
fn rejects_non_numeric_time() {
    assert!(TimeOfDay::parse("noon").is_err());
}

#[test]
fn hong_kong_is_a_known_timezone() {
    assert!(jiff::tz::TimeZone::get(DEFAULT_TIMEZONE).is_ok());
}

#[test]
fn blank_values_count_as_unset_and_others_are_trimmed() {
    assert_eq!(env_opt(&None), None);
    assert_eq!(env_opt(&Some("   ".to_owned())), None);
    assert_eq!(env_opt(&Some("  x ".to_owned())).as_deref(), Some("x"));
    assert_eq!(env_or(&Some(" ".to_owned()), "dflt"), "dflt");
    assert_eq!(env_or(&Some(" v ".to_owned()), "dflt"), "v");
}

#[test]
fn a_session_cookie_wins_over_the_password_pair() {
    let chosen = resolve_credentials(
        &Some("LtpaToken=x".to_owned()),
        &Some("s1".to_owned()),
        &Some("pw".to_owned()),
    )
    .expect("credentials");
    assert_eq!(chosen.label(), "session-cookie");
    match chosen {
        Credentials::SessionCookie(secret) => assert_eq!(secret.expose(), "LtpaToken=x"),
        Credentials::Password { .. } => panic!("the cookie must win"),
    }
    let pair = resolve_credentials(&None, &Some("s1".to_owned()), &Some("pw".to_owned()))
        .expect("credentials");
    assert_eq!(pair.label(), "password-sso");
}

#[test]
fn reports_each_missing_credential() {
    let mut env = values();
    assert_eq!(
        config_message(&env),
        "no credentials: set SESSION_COOKIE, or both STUDENT_ID and STUDENT_PASSWORD"
    );
    env.student_id = Some("s1".to_owned());
    assert_eq!(config_message(&env), "STUDENT_ID is set but STUDENT_PASSWORD is missing");
    env.student_id = Some("  ".to_owned());
    env.student_password = Some("pw".to_owned());
    assert_eq!(config_message(&env), "STUDENT_PASSWORD is set but STUDENT_ID is missing");
}

#[test]
fn builds_the_default_configuration() {
    let mut env = values();
    env.session_cookie = Some("LtpaToken=x".to_owned());
    let config = Config::from_env(&env).expect("valid configuration");
    assert_eq!(config.ole_url, "https://iole.hkmu.edu.hk");
    assert_eq!(config.nam_login_url, "https://auth.hkmu.edu.hk/nidp/app/login?sid=0&sid=0");
    assert_eq!(
        config.oleconnect_api_url,
        "https://oleconnect.hkmu.edu.hk/oledb/api/getTodayClass/"
    );
    assert_eq!(config.timezone_name, "Asia/Hong_Kong");
    assert_eq!(config.schedule_time.to_text(), "03:00");
    assert!(config.discord_webhook.is_none());
    assert_eq!(config.attendance_poll_interval_secs, 600);
    assert_eq!(config.warning_threshold_secs, 1800);
    assert_eq!(config.default_class_duration_secs, 10800);
}

#[test]
fn refuses_an_unknown_zone_and_a_bad_schedule_time() {
    let mut env = values();
    env.session_cookie = Some("LtpaToken=x".to_owned());
    env.timezone = Some("Mars/Olympus".to_owned());
    assert!(config_message(&env).starts_with("unknown TIMEZONE \"Mars/Olympus\": "));
    env.timezone = None;
    env.schedule_time = Some("25:00".to_owned());
    assert_eq!(config_message(&env), "invalid SCHEDULE_TIME \"25:00\": out of range");
    env.schedule_time = Some("3:7".to_owned());
    assert_eq!(config_message(&env), "invalid SCHEDULE_TIME \"3:7\": bad minute");
}

#[test]
fn schedule_time_accepts_only_h_mm_or_hh_mm() {
    for bad in ["3:7", "+3:05", " 3 : 05", "003:00", "3:005", "-1:00", ":30", "12:"] {
        assert!(TimeOfDay::parse(bad).is_err(), "{bad:?} should be refused");
    }
    assert_eq!(TimeOfDay::parse("  7:45  # note").expect("valid").to_text(), "07:45");
    assert_eq!(TimeOfDay::parse("23:59").expect("valid").to_text(), "23:59");
    let reason = |raw: &str| TimeOfDay::parse(raw).expect_err("rejected").message();
    assert_eq!(reason("+3:05"), "invalid time of day \"+3:05\": bad hour");
    assert_eq!(reason(" 3 : 05"), "invalid time of day \" 3 : 05\": bad hour");
}
