//! What the OLE gateway decides: the URLs it requests, how it reads a located
//! activity, and how a probe is reported.

use vstd::prelude::*;

use crate::error::PortError;
use crate::oleconnect::{ATTENDANCE_TYPE, Activity};
use crate::schedule::ScheduledClass;
use crate::setup::{Notice, SetupOutcome};
use crate::text::{
    before_first, chars_of, contains, find_char_from, push_char, push_str, string_from,
};
use crate::web_url::{resolve_against, url_resolved};

verus! {

/// `s` without any trailing `c` (`str::trim_end_matches`).
pub open spec fn strip_trailing(s: Seq<char>, c: char) -> Seq<char>
    decreases s.len(),
{
    if s.len() > 0 && s.last() == c {
        strip_trailing(s.drop_last(), c)
    } else {
        s
    }
}

/// The class-activities page of a course.
pub open spec fn activities_url_spec(ole_url: Seq<char>, termcode: Seq<char>, course_code: Seq<char>) -> Seq<
    char,
> {
    strip_trailing(ole_url, '/') + "/course"@ + termcode + "/"@ + course_code
        + ".nsf//class_activities_student?readform&"@
}

/// The length of `s[..to]` once trailing `c` are stripped.
fn strip_trailing_len(s: &[char], c: char, to: usize) -> (n: usize)
    requires
        to <= s@.len(),
    ensures
        n <= to,
        s@.take(n as int) == strip_trailing(s@.take(to as int), c),
    decreases to,
{
    if to > 0 && s[to - 1] == c {
        assert(s@.take(to as int).drop_last() =~= s@.take(to - 1));
        strip_trailing_len(s, c, to - 1)
    } else {
        to
    }
}

/// The class-activities page for a course.
pub fn activities_url(ole_url: &str, class: &ScheduledClass) -> (r: String)
    ensures
        r@ == activities_url_spec(ole_url@, class.termcode@, class.course_code@),
{
    let h = chars_of(ole_url);
    let n = strip_trailing_len(h.as_slice(), '/', h.len());
    assert(h@.take(h@.len() as int) =~= h@);
    let mut r = string_from(h.as_slice(), 0, n);
    assert(r@ =~= h@.take(n as int));
    push_str(&mut r, "/course");
    push_str(&mut r, class.termcode.as_str());
    push_char(&mut r, '/');
    proof {
        reveal_strlit("/");
    }
    push_str(&mut r, class.course_code.as_str());
    push_str(&mut r, ".nsf//class_activities_student?readform&");
    assert(r@ =~= activities_url_spec(ole_url@, class.termcode@, class.course_code@));
    r
}

/// Resolve a possibly-relative URL against the portal base.
pub fn resolve_url(base: &str, reference: &str) -> (r: Result<String, PortError>)
    ensures
        match url_resolved(base@, reference@) {
            Ok(s) => r matches Ok(t) && t@ == s,
            Err(e) => r matches Err(PortError::Remote(m)) && m@ == "unusable submit URL "@
                + reference@ + ": "@ + e,
        },
{
    match resolve_against(base, reference) {
        Ok(s) => Ok(s),
        Err(e) => {
            let mut m = "unusable submit URL ".to_string();
            push_str(&mut m, reference);
            push_str(&mut m, ": ");
            push_str(&mut m, e.as_str());
            Err(PortError::Remote(m))
        },
    }
}

/// Append `extra` to a URL's query string, using `?` or `&` as required.
pub open spec fn join_query_spec(url: Seq<char>, extra: Seq<char>) -> Seq<char> {
    url + (if contains(url, seq!['?']) {
        seq!['&']
    } else {
        seq!['?']
    }) + extra
}

/// Append `extra` to a URL's query string, using `?` or `&` as required.
pub fn join_query(url: &str, extra: &str) -> (r: String)
    ensures
        r@ == join_query_spec(url@, extra@),
{
    let h = chars_of(url);
    let has_query = match find_char_from(h.as_slice(), '?', 0) {
        Some(_) => true,
        None => false,
    };
    let mut r = url.to_string();
    push_char(&mut r, if has_query { '&' } else { '?' });
    push_str(&mut r, extra);
    assert(r@ =~= join_query_spec(url@, extra@));
    r
}

/// The request that records attendance when the page declared none: the
/// activities page with its query replaced by the create request.
pub open spec fn fallback_submit_spec(page: Seq<char>, unid: Seq<char>, suffix: Seq<char>) -> Seq<char> {
    before_first(page, '?') + "?createdocument&puid="@ + unid + "&"@ + suffix
}

/// Build the URL that records attendance; `suffix` carries the coordinates
/// (`lat=..&lng=..`).
///
/// The activity page declares its own `take_url`, already carrying
/// `createdocument` and the document id, so a non-empty one is preferred,
/// resolved against the portal: it is what a browser would request. When the
/// page declared none, the request is built from the class and the document
/// id, replacing the page's query rather than appending to it:
/// `readform&?createdocument` would leave `createdocument` as part of a
/// parameter value, so the server would answer a read and never see a create.
pub fn submit_url(ole_url: &str, class: &ScheduledClass, activity: &Activity, suffix: &str) -> (r:
    Result<String, PortError>)
    ensures
        match activity.take_url {
            Some(d) if d@.len() > 0 => match url_resolved(ole_url@, d@) {
                Ok(s) => r matches Ok(t) && t@ == join_query_spec(s, suffix@),
                Err(e) => r matches Err(PortError::Remote(m)) && m@ == "unusable submit URL "@ + d@
                    + ": "@ + e,
            },
            _ => r matches Ok(t) && t@ == fallback_submit_spec(
                activities_url_spec(ole_url@, class.termcode@, class.course_code@),
                activity.unid@,
                suffix@,
            ),
        },
{
    match &activity.take_url {
        Some(declared) => {
            if !declared.as_str().is_empty() {
                let resolved = match resolve_url(ole_url, declared.as_str()) {
                    Ok(s) => s,
                    Err(e) => {
                        return Err(e);
                    },
                };
                return Ok(join_query(resolved.as_str(), suffix));
            }
        },
        None => {},
    }
    let page = activities_url(ole_url, class);
    let h = chars_of(page.as_str());
    let end = match find_char_from(h.as_slice(), '?', 0) {
        Some(k) => k,
        None => h.len(),
    };
    let mut r = string_from(h.as_slice(), 0, end);
    assert(r@ =~= before_first(page@, '?'));
    push_str(&mut r, "?createdocument&puid=");
    push_str(&mut r, activity.unid.as_str());
    push_char(&mut r, '&');
    proof {
        reveal_strlit("&");
    }
    push_str(&mut r, suffix);
    assert(r@ =~= fallback_submit_spec(page@, activity.unid@, suffix@));
    Ok(r)
}

/// What a read-only probe found on a class's activities page.
///
/// One value rather than a pair of flags, so the outcomes are exhaustive and
/// mutually exclusive: an activity that is not the attendance type cannot also
/// report an open window.
#[derive(Debug, Clone, Copy, PartialEq, Eq, Structural)]
pub enum ActivityState {
    /// The class has an attendance activity whose window is open.
    Open,
    /// The class has an attendance activity, but its window has closed.
    Closed,
    /// The page exposes an activity, but not the attendance type.
    Absent,
}

/// What a probe reports of a located activity.
pub fn probe_state(activity: &Activity) -> (s: ActivityState)
    ensures
        activity.attendance_type@ != ATTENDANCE_TYPE@ ==> s is Absent,
        activity.attendance_type@ == ATTENDANCE_TYPE@ && activity.open ==> s is Open,
        activity.attendance_type@ == ATTENDANCE_TYPE@ && !activity.open ==> s is Closed,
{
    if !activity.is_attendance() {
        ActivityState::Absent
    } else if activity.open {
        ActivityState::Open
    } else {
        ActivityState::Closed
    }
}

/// Refuse to submit to an activity that is not the attendance type.
pub fn check_submittable(activity: &Activity) -> (r: Result<(), PortError>)
    ensures
        activity.attendance_type@ == ATTENDANCE_TYPE@ ==> r is Ok,
        activity.attendance_type@ != ATTENDANCE_TYPE@ ==> (r matches Err(PortError::Unexpected(m))
            && m@ == "activity type "@ + activity.attendance_type@
            + " is not an attendance activity"@),
{
    if activity.is_attendance() {
        return Ok(());
    }
    let mut m = "activity type ".to_string();
    push_str(&mut m, activity.attendance_type.as_str());
    push_str(&mut m, " is not an attendance activity");
    Err(PortError::Unexpected(m))
}

/// The notice a probe result deserves: open is good news, a closed or absent
/// activity is a warning, and a failed probe an error.
pub open spec fn probe_notice_spec(course_code: Seq<char>, result: Result<ActivityState, PortError>) -> (
    Notice,
    Seq<char>,
) {
    match result {
        Ok(ActivityState::Open) => (Notice::Info, course_code + " | attendance activity is open"@),
        Ok(ActivityState::Closed) => (
            Notice::Warning,
            course_code + " | attendance activity found but its window is closed"@,
        ),
        Ok(ActivityState::Absent) => (Notice::Warning, course_code + " | no attendance activity found"@),
        Err(e) => (Notice::Error, course_code + " | probe failed: "@ + e.message_spec()),
    }
}

/// Report one probe result at the severity it deserves.
pub fn probe_notice(class: &ScheduledClass, result: &Result<ActivityState, PortError>) -> (r: (
    Notice,
    String,
))
    ensures
        r.0 == probe_notice_spec(class.course_code@, *result).0,
        r.1@ == probe_notice_spec(class.course_code@, *result).1,
{
    let mut m = class.course_code.clone();
    match result {
        Ok(ActivityState::Open) => {
            push_str(&mut m, " | attendance activity is open");
            (Notice::Info, m)
        },
        Ok(ActivityState::Closed) => {
            push_str(&mut m, " | attendance activity found but its window is closed");
            (Notice::Warning, m)
        },
        Ok(ActivityState::Absent) => {
            push_str(&mut m, " | no attendance activity found");
            (Notice::Warning, m)
        },
        Err(e) => {
            push_str(&mut m, " | probe failed: ");
            push_str(&mut m, e.message().as_str());
            (Notice::Error, m)
        },
    }
}

/// Whether a setup outcome leaves anything to probe.
pub fn probe_precheck(outcome: &SetupOutcome) -> (r: Result<(), PortError>)
    ensures
        match outcome {
            SetupOutcome::Unusable { .. } => r matches Err(PortError::Unexpected(m)) && m@
                == "no usable timetable to probe"@,
            SetupOutcome::Ready(s) => if s.classes@.len() == 0 {
                r matches Err(PortError::Unexpected(m)) && m@ == "no classes scheduled today to probe"@
            } else {
                r is Ok
            },
        },
{
    match outcome {
        SetupOutcome::Unusable { .. } => Err(
            PortError::Unexpected("no usable timetable to probe".to_string()),
        ),
        SetupOutcome::Ready(s) => if s.classes.len() == 0 {
            Err(PortError::Unexpected("no classes scheduled today to probe".to_string()))
        } else {
            Ok(())
        },
    }
}

/// Posts notices to a Discord webhook.
///
/// It holds a webhook that is known to be present: whether Discord is a
/// destination at all is decided when the notifiers are assembled.
pub struct DiscordNotifier {
    webhook: String,
}

impl DiscordNotifier {
    /// Build a notifier for the given webhook URL.
    pub fn new(webhook: String) -> (n: DiscordNotifier)
        ensures
            n.webhook_spec() == webhook@,
    {
        DiscordNotifier { webhook }
    }

    /// The webhook URL.
    pub closed spec fn webhook_spec(&self) -> Seq<char> {
        self.webhook@
    }

    /// The webhook URL; it is the credential, so call sites should stay few.
    pub fn webhook(&self) -> (r: &str)
        ensures
            r@ == self.webhook_spec(),
    {
        self.webhook.as_str()
    }
}

} // verus!
