use hkmu_ole_attendance::error::{describe, AppError, PortError, SessionFailure};
use hkmu_ole_attendance::secret::Secret;

#[test]
fn a_rejected_cookie_maps_to_a_session_failure() {
    let mapped = PortError::from_app_error(AppError::SessionRejected("refused".to_owned()));
    assert!(mapped.is_session_failure());
    assert_eq!(mapped, PortError::Session(SessionFailure::Rejected("refused".to_owned())));
}

#[test]
fn a_revoked_session_maps_to_an_expired_failure() {
    let mapped = PortError::from_app_error(AppError::SessionExpired("revoked".to_owned()));
    assert_eq!(mapped, PortError::Session(SessionFailure::Expired("revoked".to_owned())));
}

#[test]
fn transport_and_api_errors_are_not_session_failures() {
    let parse = PortError::from_app_error(AppError::Parse("no activity".to_owned()));
    let api = PortError::from_app_error(AppError::Api("9901".to_owned()));
    assert!(!parse.is_session_failure());
    assert!(!api.is_session_failure());
    assert_eq!(parse, PortError::Unexpected("no activity".to_owned()));
}

#[test]
fn an_api_rejection_stays_a_remote_error() {
    let mapped = PortError::from_app_error(AppError::Api("9901: only for web users".to_owned()));
    assert_eq!(mapped, PortError::Remote("9901: only for web users".to_owned()));
}

#[test]
fn a_non_success_status_is_reported_as_a_remote_error() {
    let mapped = PortError::from_app_error(AppError::HttpStatus {
        status: 503,
        url: "https://oleconnect.hkmu.edu.hk/x".to_owned(),
    });
    assert!(!mapped.is_session_failure());
    assert!(matches!(&mapped, PortError::Remote(reason) if reason.contains("503")), "got {mapped:?}");
    assert_eq!(mapped, PortError::Remote("HTTP 503 from https://oleconnect.hkmu.edu.hk/x".to_owned()));
}

#[test]
fn a_transport_failure_keeps_its_cause_chain() {
    let rendered = describe(&vec!["error sending request".to_owned(), "certificate expired".to_owned()]);
    assert!(rendered.contains("error sending request"));
    assert!(rendered.contains("certificate expired"));
    assert_eq!(rendered, "error sending request: certificate expired");
    assert_eq!(describe(&Vec::new()), "");
}

#[test]
fn a_failed_login_is_a_session_failure_to_the_ports() {
    let mapped = PortError::from_app_error(AppError::Auth("login refused".to_owned()));
    assert_eq!(mapped, PortError::Session(SessionFailure::Unavailable("login refused".to_owned())));
    assert_eq!(mapped.message(), "session unavailable: session unavailable: login refused");
}

#[test]
fn debug_and_display_never_reveal_the_value() {
    let secret = Secret::new("hunter2");
    let debug = secret.debug_string();
    let display = secret.redacted();
    assert_eq!(debug, "Secret(***)");
    assert_eq!(display, "***");
    assert!(!debug.contains("hunter2"));
    assert!(!display.contains("hunter2"));
}

#[test]
fn expose_returns_the_original_value() {
    let secret = Secret::new("abc");
    assert_eq!(secret.expose(), "abc");
}

#[test]
fn whitespace_only_secret_counts_as_empty() {
    let secret = Secret::new("   ");
    assert!(secret.is_empty());
    assert!(!Secret::from_string(" x ".to_owned()).is_empty());
}
