//! The `getTodayClass` wire format, and its conversion into the timetable.
//!
//! These types mirror one JSON envelope; they are not the timetable's
//! vocabulary, so they are converted at the boundary. A change to the API's
//! field names or result encoding then cannot reach the business rules.

use vstd::prelude::*;

use crate::html::opt_view;
use crate::schedule::{outcome_view, Course, Outcome, Session, Timetable};
use crate::text::{chars_of, push_str, trim, trim_range};

verus! {

/// `result` in OLE payloads is sometimes a number and sometimes a string.
///
/// The API answers `"result": 1` on success and `"result": "-1"` together with
/// an `error` field on rejection, so both shapes are accepted.
#[derive(Debug, Clone)]
pub enum WireResult {
    /// A numeric result code.
    Number(i64),
    /// A result code sent as text.
    Text(String),
}

impl WireResult {
    /// Whether the value is the documented success code (`1`).
    pub open spec fn success_spec(self) -> bool {
        match self {
            WireResult::Number(v) => v == 1,
            WireResult::Text(t) => trim(t@) == seq!['1'],
        }
    }

    /// Whether the value is the documented success code (`1`).
    pub fn is_success(&self) -> (b: bool)
        ensures
            b == self.success_spec(),
    {
        match self {
            WireResult::Number(v) => *v == 1,
            WireResult::Text(t) => {
                let s = chars_of(t.as_str());
                let n = s.len();
                assert(s@.subrange(0, n as int) =~= s@);
                let (a, b) = trim_range(&s, 0, n);
                if b - a == 1 && s[a] == '1' {
                    assert(s@.subrange(a as int, b as int) =~= seq!['1']);
                    true
                } else {
                    proof {
                        if s@.subrange(a as int, b as int) == seq!['1'] {
                            assert(s@.subrange(a as int, b as int)[0] == s@[a as int]);
                        }
                    }
                    false
                }
            },
        }
    }
}

/// Top-level `getTodayClass` response, exactly as the API sends it.
#[derive(Debug, Clone)]
pub struct WireResponse {
    /// The result code.
    pub result: WireResult,
    /// The courses; absent in the payload means none.
    pub classes: Vec<WireCourse>,
    /// The error code of a rejection.
    pub error: Option<String>,
    /// The error message of a rejection.
    pub errormsg: Option<String>,
}

/// One course in the payload.
#[derive(Debug, Clone)]
pub struct WireCourse {
    /// Term identifier.
    pub termcode: String,
    /// Course code.
    pub course_code: String,
    /// The course's sessions.
    pub classes: Vec<WireSession>,
}

/// One session in the payload.
#[derive(Debug, Clone)]
pub struct WireSession {
    /// Display name.
    pub name: String,
    /// Start time text.
    pub datetime: String,
    /// End time text.
    pub endtime: String,
    /// Group code.
    pub group: String,
    /// Room or venue.
    pub venue: String,
}

/// The API's own description of a rejection, combining its code and message.
pub open spec fn summarise_spec(error: Option<Seq<char>>, errormsg: Option<Seq<char>>) -> Option<
    Seq<char>,
> {
    match (error, errormsg) {
        (Some(code), Some(msg)) => Some(code + ": "@ + msg),
        (Some(code), None) => Some(code),
        (None, Some(msg)) => Some(msg),
        (None, None) => None,
    }
}

/// The API's own description of a rejection, combining its code and message.
pub fn summarise(error: Option<String>, errormsg: Option<String>) -> (r: Option<String>)
    ensures
        opt_view(r) == summarise_spec(opt_view(error), opt_view(errormsg)),
{
    match (error, errormsg) {
        (Some(code), Some(msg)) => {
            let mut s = code;
            push_str(&mut s, ": ");
            push_str(&mut s, msg.as_str());
            Some(s)
        },
        (Some(code), None) => Some(code),
        (None, Some(msg)) => Some(msg),
        (None, None) => None,
    }
}

/// A session carries the wire session's fields.
pub open spec fn session_from_wire(s: Session, w: WireSession) -> bool {
    &&& s.name@ == w.name@
    &&& s.datetime@ == w.datetime@
    &&& s.endtime@ == w.endtime@
    &&& s.group@ == w.group@
    &&& s.venue@ == w.venue@
}

/// A course carries the wire course's fields and sessions, in order.
pub open spec fn course_from_wire(c: Course, w: WireCourse) -> bool {
    &&& c.termcode@ == w.termcode@
    &&& c.course_code@ == w.course_code@
    &&& c.sessions@.len() == w.classes@.len()
    &&& forall|j: int|
        0 <= j < w.classes@.len() ==> session_from_wire(
            #[trigger] c.sessions@[j],
            w.classes@[j],
        )
}

/// The timetable a wire response describes.
pub open spec fn timetable_from_wire(t: Timetable, w: WireResponse) -> bool {
    &&& outcome_view(t.outcome) == (if w.result.success_spec() {
        None
    } else {
        Some(summarise_spec(opt_view(w.error), opt_view(w.errormsg)))
    })
    &&& t.courses@.len() == w.classes@.len()
    &&& forall|i: int|
        0 <= i < w.classes@.len() ==> course_from_wire(#[trigger] t.courses@[i], w.classes@[i])
}

/// Convert one wire course.
fn course_of(w: &WireCourse) -> (c: Course)
    ensures
        course_from_wire(c, *w),
{
    let mut sessions: Vec<Session> = Vec::new();
    let mut j: usize = 0;
    while j < w.classes.len()
        invariant
            j <= w.classes@.len(),
            sessions@.len() == j,
            forall|k: int| 0 <= k < j ==> session_from_wire(#[trigger] sessions@[k], w.classes@[k]),
        decreases w.classes@.len() - j,
    {
        let s = &w.classes[j];
        sessions.push(
            Session {
                name: s.name.clone(),
                datetime: s.datetime.clone(),
                endtime: s.endtime.clone(),
                group: s.group.clone(),
                venue: s.venue.clone(),
            },
        );
        j = j + 1;
    }
    Course { termcode: w.termcode.clone(), course_code: w.course_code.clone(), sessions }
}

impl Timetable {
    /// The timetable a wire response describes: success when the result code
    /// says so, else a refusal carrying the API's own description.
    pub fn from_wire(wire: WireResponse) -> (t: Timetable)
        ensures
            timetable_from_wire(t, wire),
    {
        let WireResponse { result, classes, error, errormsg } = wire;
        let outcome = if result.is_success() {
            Outcome::Success
        } else {
            Outcome::Rejected { reason: summarise(error, errormsg) }
        };
        let mut courses: Vec<Course> = Vec::new();
        let mut i: usize = 0;
        while i < classes.len()
            invariant
                i <= classes@.len(),
                classes == wire.classes,
                courses@.len() == i,
                forall|k: int|
                    0 <= k < i ==> course_from_wire(#[trigger] courses@[k], classes@[k]),
            decreases classes@.len() - i,
        {
            courses.push(course_of(&classes[i]));
            i = i + 1;
        }
        Timetable { outcome, courses }
    }
}

} // verus!
