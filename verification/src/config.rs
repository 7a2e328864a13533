//! Configuration: the values read from the environment, and the rules that
//! turn them into a typed configuration.
//!
//! Reading the process environment is the caller's job; everything that
//! decides what those values mean is here.

use vstd::prelude::*;

use crate::error::{AppError, DomainError};
use crate::html::opt_view;
use crate::secret::Secret;
use crate::text::{chars_of, debug_quoted, push_str, quote_debug, string_from, trim, trim_range};
use crate::time::{time_of_day_reason, time_of_day_spec, TimeOfDay};

verus! {

/// Default OLE entry point.
pub const DEFAULT_OLE_URL: &'static str = "https://iole.hkmu.edu.hk";

/// NAM CIDP endpoint that accepts the credential POST.
pub const DEFAULT_NAM_LOGIN_URL: &'static str = "https://auth.hkmu.edu.hk/nidp/app/login?sid=0&sid=0";

/// Express API host serving `getTodayClass`.
pub const DEFAULT_OLECONNECT_API_URL: &'static str =
    "https://oleconnect.hkmu.edu.hk/oledb/api/getTodayClass/";

/// Default timezone: the university, and therefore the class timetable, is in HKT.
pub const DEFAULT_TIMEZONE: &'static str = "Asia/Hong_Kong";

/// Default daily setup time (HKT).
pub const DEFAULT_SCHEDULE_TIME: &'static str = "03:00";

/// Seconds between attendance polls.
pub const ATTENDANCE_POLL_INTERVAL_SECS: u64 = 600;

/// The "almost over" warning is due once this many seconds remain.
pub const WARNING_THRESHOLD_SECS: u64 = 1800;

/// Assumed class length, in seconds, when the API omits an end time.
pub const DEFAULT_CLASS_DURATION_SECS: u64 = 10800;

/// Attempts made to retrieve a usable timetable in one setup run.
pub const SETUP_RETRY_ATTEMPTS: u32 = 3;

/// Seconds between those attempts.
pub const SETUP_RETRY_DELAY_SECS: u64 = 30;

/// How the client authenticates against OLE.
#[derive(Clone)]
pub enum Credentials {
    /// A pre-captured `Cookie:` header, used verbatim for hkmu hosts.
    SessionCookie(Secret),
    /// `STUDENT_ID` / `STUDENT_PASSWORD` for the SSO chain.
    Password {
        /// Student identifier used as the SSO username.
        student_id: Secret,
        /// Student password used as the SSO credential.
        password: Secret,
    },
}

impl Credentials {
    /// Short label for logs, never containing secret material.
    pub fn label(&self) -> (r: &'static str)
        ensures
            self is SessionCookie ==> r@ == "session-cookie"@,
            self is Password ==> r@ == "password-sso"@,
    {
        match self {
            Credentials::SessionCookie(_) => "session-cookie",
            Credentials::Password { .. } => "password-sso",
        }
    }
}

/// The raw environment values the configuration is built from, `None` where
/// the variable is unset.
#[derive(Clone)]
pub struct EnvValues {
    /// `SESSION_COOKIE`.
    pub session_cookie: Option<String>,
    /// `STUDENT_ID`.
    pub student_id: Option<String>,
    /// `STUDENT_PASSWORD`.
    pub student_password: Option<String>,
    /// `TIMEZONE`.
    pub timezone: Option<String>,
    /// `OLE_URL`.
    pub ole_url: Option<String>,
    /// `NAM_LOGIN_URL`.
    pub nam_login_url: Option<String>,
    /// `OLECONNECT_API_URL`.
    pub oleconnect_api_url: Option<String>,
    /// `DISCORD_WEBHOOK`.
    pub discord_webhook: Option<String>,
    /// `SCHEDULE_TIME`.
    pub schedule_time: Option<String>,
}

/// A variable's value as the configuration sees it: trimmed, and absent when
/// it is unset or blank.
pub open spec fn env_opt_spec(raw: Option<Seq<char>>) -> Option<Seq<char>> {
    match raw {
        Some(v) => if trim(v).len() > 0 {
            Some(trim(v))
        } else {
            None
        },
        None => None,
    }
}

/// A variable's value, or `default` when it is unset or blank.
pub open spec fn env_or_spec(raw: Option<Seq<char>>, default: Seq<char>) -> Seq<char> {
    match env_opt_spec(raw) {
        Some(v) => v,
        None => default,
    }
}

/// Read an environment value, treating blank values as unset.
pub fn env_opt(raw: &Option<String>) -> (r: Option<String>)
    ensures
        opt_view(r) == env_opt_spec(opt_view(*raw)),
{
    match raw {
        None => None,
        Some(v) => {
            let s = chars_of(v.as_str());
            let n = s.len();
            assert(s@.subrange(0, n as int) =~= s@);
            let (a, b) = trim_range(&s, 0, n);
            if a == b {
                None
            } else {
                Some(string_from(&s, a, b))
            }
        },
    }
}

/// Read an environment value with a fallback default.
pub fn env_or(raw: &Option<String>, default: &str) -> (r: String)
    ensures
        r@ == env_or_spec(opt_view(*raw), default@),
{
    match env_opt(raw) {
        Some(v) => v,
        None => default.to_string(),
    }
}

/// The message of the credentials refusal, if the three values are refused.
pub open spec fn credentials_refusal(
    cookie: Option<Seq<char>>,
    student_id: Option<Seq<char>>,
    password: Option<Seq<char>>,
) -> Option<Seq<char>> {
    match (cookie, student_id, password) {
        (Some(_), _, _) => None,
        (None, Some(_), Some(_)) => None,
        (None, None, None) => Some(
            "no credentials: set SESSION_COOKIE, or both STUDENT_ID and STUDENT_PASSWORD"@,
        ),
        (None, Some(_), None) => Some("STUDENT_ID is set but STUDENT_PASSWORD is missing"@),
        (None, None, Some(_)) => Some("STUDENT_PASSWORD is set but STUDENT_ID is missing"@),
    }
}

/// The credentials the three values select: a session cookie wins over the
/// password pair.
pub open spec fn credentials_match(
    c: Credentials,
    cookie: Option<Seq<char>>,
    student_id: Option<Seq<char>>,
    password: Option<Seq<char>>,
) -> bool {
    match cookie {
        Some(k) => c matches Credentials::SessionCookie(s) && s@ == k,
        None => c matches Credentials::Password { student_id: i, password: p } && student_id
            == Some(i@) && password == Some(p@),
    }
}

/// Choose the credentials from the raw `SESSION_COOKIE`, `STUDENT_ID` and
/// `STUDENT_PASSWORD` values.
///
/// `SESSION_COOKIE` takes precedence over `STUDENT_ID`/`STUDENT_PASSWORD`.
pub fn resolve_credentials(
    session_cookie: &Option<String>,
    student_id: &Option<String>,
    student_password: &Option<String>,
) -> (r: Result<Credentials, AppError>)
    ensures
        ({
            let cookie = env_opt_spec(opt_view(*session_cookie));
            let id = env_opt_spec(opt_view(*student_id));
            let pw = env_opt_spec(opt_view(*student_password));
            match r {
                Ok(c) => credentials_refusal(cookie, id, pw) is None && credentials_match(
                    c,
                    cookie,
                    id,
                    pw,
                ),
                Err(e) => credentials_refusal(cookie, id, pw) matches Some(m) && e matches AppError::Config(
                    s,
                ) && s@ == m,
            }
        }),
{
    let cookie = env_opt(session_cookie);
    let id = env_opt(student_id);
    let pw = env_opt(student_password);
    match (cookie, id, pw) {
        (Some(k), _, _) => Ok(Credentials::SessionCookie(Secret::from_string(k))),
        (None, Some(i), Some(p)) => Ok(
            Credentials::Password { student_id: Secret::from_string(i), password: Secret::from_string(p) },
        ),
        (None, None, None) => Err(
            AppError::Config(
                "no credentials: set SESSION_COOKIE, or both STUDENT_ID and STUDENT_PASSWORD".to_string(),
            ),
        ),
        (None, Some(_), None) => Err(
            AppError::Config("STUDENT_ID is set but STUDENT_PASSWORD is missing".to_string()),
        ),
        (None, None, Some(_)) => Err(
            AppError::Config("STUDENT_PASSWORD is set but STUDENT_ID is missing".to_string()),
        ),
    }
}

/// Fully resolved runtime configuration.
pub struct Config {
    /// Base OLE URL (the SSO-protected portal).
    pub ole_url: String,
    /// NAM credential endpoint.
    pub nam_login_url: String,
    /// `getTodayClass` API endpoint.
    pub oleconnect_api_url: String,
    /// Discord webhook, when notifications are enabled.
    pub discord_webhook: Option<Secret>,
    /// Wall-clock time to run the daily setup.
    pub schedule_time: TimeOfDay,
    /// Timezone used for all scheduling and class-time comparisons.
    pub timezone: jiff::tz::TimeZone,
    /// Timezone name as configured, for logging.
    pub timezone_name: String,
    /// Authentication material.
    pub credentials: Credentials,
    /// Seconds between attendance checks.
    pub attendance_poll_interval_secs: u64,
    /// Emit the "almost over" warning once this many seconds remain.
    pub warning_threshold_secs: u64,
    /// Assumed class length, in seconds, when the API omits an end time.
    pub default_class_duration_secs: u64,
    /// Attempts made to retrieve a usable timetable.
    pub setup_retry_attempts: u32,
    /// Seconds between those attempts.
    pub setup_retry_delay_secs: u64,
}

/// `jiff::tz::TimeZone::get`: look a zone up by its IANA name, the error
/// rendered as text.
///
/// Nothing is claimed of the outcome: which names resolve depends on the time
/// zone database the process finds.
#[verifier::external_body]
fn lookup_zone(name: &str) -> (r: Result<jiff::tz::TimeZone, String>) {
    match jiff::tz::TimeZone::get(name) {
        Ok(zone) => Ok(zone),
        Err(error) => Err(error.to_string()),
    }
}

/// The message for a zone name the database does not know.
pub open spec fn unknown_zone_message(name: Seq<char>, error: Seq<char>) -> Seq<char> {
    "unknown TIMEZONE "@ + debug_quoted(name) + ": "@ + error
}

/// The message for a `SCHEDULE_TIME` that is not a valid `H:MM` or `HH:MM`.
pub open spec fn schedule_time_message(value: Seq<char>) -> Seq<char> {
    "invalid SCHEDULE_TIME "@ + debug_quoted(value) + ": "@ + time_of_day_reason(value)
}

/// Every field of `c` except the zone is what `env` and `credentials` call for.
pub open spec fn config_fields(c: Config, env: EnvValues, credentials: Credentials) -> bool {
    &&& c.ole_url@ == env_or_spec(opt_view(env.ole_url), DEFAULT_OLE_URL@)
    &&& c.nam_login_url@ == env_or_spec(opt_view(env.nam_login_url), DEFAULT_NAM_LOGIN_URL@)
    &&& c.oleconnect_api_url@ == env_or_spec(
        opt_view(env.oleconnect_api_url),
        DEFAULT_OLECONNECT_API_URL@,
    )
    &&& (match c.discord_webhook {
        Some(w) => env_opt_spec(opt_view(env.discord_webhook)) == Some(w@),
        None => env_opt_spec(opt_view(env.discord_webhook)) is None,
    })
    &&& time_of_day_spec(env_or_spec(opt_view(env.schedule_time), DEFAULT_SCHEDULE_TIME@)) == Some(
        c.schedule_time.value(),
    )
    &&& c.timezone_name@ == env_or_spec(opt_view(env.timezone), DEFAULT_TIMEZONE@)
    &&& c.credentials == credentials
    &&& c.attendance_poll_interval_secs == ATTENDANCE_POLL_INTERVAL_SECS
    &&& c.warning_threshold_secs == WARNING_THRESHOLD_SECS
    &&& c.default_class_duration_secs == DEFAULT_CLASS_DURATION_SECS
    &&& c.setup_retry_attempts == SETUP_RETRY_ATTEMPTS
    &&& c.setup_retry_delay_secs == SETUP_RETRY_DELAY_SECS
}

impl Config {
    /// Build the configuration from the environment values, the chosen
    /// credentials and the outcome of looking the zone up.
    ///
    /// A zone the database does not know is refused first, then a schedule
    /// time that is not `H:MM` or `HH:MM`; both are configuration errors that
    /// name the variable and its value.
    pub fn assemble(
        env: &EnvValues,
        credentials: Credentials,
        zone: Result<jiff::tz::TimeZone, String>,
    ) -> (r: Result<Config, AppError>)
        ensures
            ({
                let name = env_or_spec(opt_view(env.timezone), DEFAULT_TIMEZONE@);
                let schedule = env_or_spec(opt_view(env.schedule_time), DEFAULT_SCHEDULE_TIME@);
                match zone {
                    Err(error) => r matches Err(AppError::Config(m)) && m@ == unknown_zone_message(
                        name,
                        error@,
                    ),
                    Ok(z) => match time_of_day_spec(schedule) {
                        None => r matches Err(AppError::Config(m)) && m@ == schedule_time_message(
                            schedule,
                        ),
                        Some(_) => r matches Ok(c) && config_fields(c, *env, credentials)
                            && c.timezone == z,
                    },
                }
            }),
    {
        let timezone_name = env_or(&env.timezone, DEFAULT_TIMEZONE);
        let timezone = match zone {
            Ok(z) => z,
            Err(error) => {
                let mut m = "unknown TIMEZONE ".to_string();
                let quoted = quote_debug(timezone_name.as_str());
                push_str(&mut m, quoted.as_str());
                push_str(&mut m, ": ");
                push_str(&mut m, error.as_str());
                return Err(AppError::Config(m));
            },
        };
        let ole_url = env_or(&env.ole_url, DEFAULT_OLE_URL);
        let nam_login_url = env_or(&env.nam_login_url, DEFAULT_NAM_LOGIN_URL);
        let oleconnect_api_url = env_or(&env.oleconnect_api_url, DEFAULT_OLECONNECT_API_URL);
        let discord_webhook = match env_opt(&env.discord_webhook) {
            Some(w) => Some(Secret::from_string(w)),
            None => None,
        };
        let schedule_text = env_or(&env.schedule_time, DEFAULT_SCHEDULE_TIME);
        let schedule_time = match TimeOfDay::parse(schedule_text.as_str()) {
            Ok(t) => t,
            Err(e) => {
                let mut m = "invalid SCHEDULE_TIME ".to_string();
                let quoted = quote_debug(schedule_text.as_str());
                push_str(&mut m, quoted.as_str());
                push_str(&mut m, ": ");
                if let DomainError::TimeOfDay { reason, .. } = &e {
                    push_str(&mut m, reason.as_str());
                }
                return Err(AppError::Config(m));
            },
        };
        Ok(
            Config {
                ole_url,
                nam_login_url,
                oleconnect_api_url,
                discord_webhook,
                schedule_time,
                timezone,
                timezone_name,
                credentials,
                attendance_poll_interval_secs: ATTENDANCE_POLL_INTERVAL_SECS,
                warning_threshold_secs: WARNING_THRESHOLD_SECS,
                default_class_duration_secs: DEFAULT_CLASS_DURATION_SECS,
                setup_retry_attempts: SETUP_RETRY_ATTEMPTS,
                setup_retry_delay_secs: SETUP_RETRY_DELAY_SECS,
            },
        )
    }

    /// Build the configuration from the environment values.
    ///
    /// Credentials are checked first; then the zone is looked up and the rest
    /// assembled as [`Config::assemble`] states, for whichever outcome the
    /// lookup had.
    pub fn from_env(env: &EnvValues) -> (r: Result<Config, AppError>)
        ensures
            ({
                let cookie = env_opt_spec(opt_view(env.session_cookie));
                let id = env_opt_spec(opt_view(env.student_id));
                let pw = env_opt_spec(opt_view(env.student_password));
                let name = env_or_spec(opt_view(env.timezone), DEFAULT_TIMEZONE@);
                let schedule = env_or_spec(opt_view(env.schedule_time), DEFAULT_SCHEDULE_TIME@);
                match credentials_refusal(cookie, id, pw) {
                    Some(m) => r matches Err(AppError::Config(s)) && s@ == m,
                    None => match r {
                        Ok(c) => config_fields(c, *env, c.credentials) && credentials_match(
                            c.credentials,
                            cookie,
                            id,
                            pw,
                        ),
                        Err(AppError::Config(m)) => (exists|error: Seq<char>|
                            m@ == #[trigger] unknown_zone_message(name, error)) || (time_of_day_spec(
                            schedule,
                        ) is None && m@ == schedule_time_message(schedule)),
                        Err(_) => false,
                    },
                }
            }),
    {
        let credentials = match resolve_credentials(
            &env.session_cookie,
            &env.student_id,
            &env.student_password,
        ) {
            Ok(c) => c,
            Err(e) => {
                return Err(e);
            },
        };
        let name = env_or(&env.timezone, DEFAULT_TIMEZONE);
        let zone = lookup_zone(name.as_str());
        let ghost zone_error = match zone {
            Err(ref error) => error@,
            Ok(_) => Seq::empty(),
        };
        let r = Config::assemble(env, credentials, zone);
        proof {
            if let Err(AppError::Config(ref m)) = r {
                if zone is Err {
                    assert(m@ == unknown_zone_message(name@, zone_error));
                }
            }
        }
        r
    }
}

} // verus!
