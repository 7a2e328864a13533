//! Timetable values and the rules that select which sessions matter today.
//!
//! Pure: no HTTP, no clock, no storage, and no knowledge of the API's JSON
//! shape. The wire format is decoded elsewhere and converted into these types
//! at the boundary.

use vstd::prelude::*;

use crate::text::{chars_of, push_char, push_str, trim, trim_range};
use crate::time::{
    civil_of, class_time_fields, parse_class_time, push_two_digits, two_digits, CivilDate,
    CivilDateTime,
};

verus! {

/// Whether the service handed back a usable timetable.
#[derive(Debug, Clone)]
pub enum Outcome {
    /// The service answered successfully.
    Success,
    /// The service refused, optionally saying why.
    Rejected {
        /// The service's own description of the refusal, when it gave one.
        reason: Option<String>,
    },
}

/// What an [`Outcome`] says: `None` for success, else the refusal's reason.
pub open spec fn outcome_view(o: Outcome) -> Option<Option<Seq<char>>> {
    match o {
        Outcome::Success => None,
        Outcome::Rejected { reason } => Some(
            match reason {
                Some(r) => Some(r@),
                None => None,
            },
        ),
    }
}

impl Outcome {
    /// Whether the service answered successfully.
    pub fn is_success(&self) -> (b: bool)
        ensures
            b == (*self is Success),
    {
        match self {
            Outcome::Success => true,
            Outcome::Rejected { .. } => false,
        }
    }

    /// The service's own description of a refusal, if any.
    pub fn reason(&self) -> (r: Option<&str>)
        ensures
            match outcome_view(*self) {
                Some(Some(why)) => r matches Some(t) && t@ == why,
                _ => r is None,
            },
    {
        match self {
            Outcome::Success => None,
            Outcome::Rejected { reason } => match reason {
                Some(why) => Some(why.as_str()),
                None => None,
            },
        }
    }

    /// An independent copy.
    pub fn duplicate(&self) -> (r: Outcome)
        ensures
            outcome_view(r) == outcome_view(*self),
    {
        match self {
            Outcome::Success => Outcome::Success,
            Outcome::Rejected { reason } => Outcome::Rejected {
                reason: match reason {
                    Some(why) => Some(why.clone()),
                    None => None,
                },
            },
        }
    }
}

/// One course offered in the current term.
#[derive(Debug, Clone)]
pub struct Course {
    /// Term identifier, e.g. `2604`.
    pub termcode: String,
    /// Course code, e.g. `ELEC3050SEF`.
    pub course_code: String,
    /// Sessions belonging to this course.
    pub sessions: Vec<Session>,
}

/// A single scheduled session as the service describes it, before its times
/// are interpreted.
#[derive(Debug, Clone)]
pub struct Session {
    /// Display name, e.g. `Lecture ( Full Time )`.
    pub name: String,
    /// Start time as `YYYY-MM-DD HH:MM` in local wall-clock time.
    pub datetime: String,
    /// End time as `YYYY-MM-DD HH:MM`, or empty when unknown.
    pub endtime: String,
    /// Group code, e.g. `L01`.
    pub group: String,
    /// Room or venue.
    pub venue: String,
}

/// The timetable the service reported, with its courses.
#[derive(Debug, Clone)]
pub struct Timetable {
    /// Whether the service answered successfully.
    pub outcome: Outcome,
    /// Courses with their sessions; empty on a refusal.
    pub courses: Vec<Course>,
}

impl Timetable {
    /// Whether the timetable carries a successful course list.
    pub fn is_success(&self) -> (b: bool)
        ensures
            b == (self.outcome is Success),
    {
        self.outcome.is_success()
    }

    /// The service's own description of a refusal, if any.
    pub fn error_summary(&self) -> (r: Option<String>)
        ensures
            match outcome_view(self.outcome) {
                Some(Some(why)) => r matches Some(t) && t@ == why,
                _ => r is None,
            },
    {
        match self.outcome.reason() {
            Some(why) => Some(why.to_string()),
            None => None,
        }
    }
}

/// A session resolved into typed times.
#[derive(Debug, Clone)]
pub struct ScheduledClass {
    /// Term identifier.
    pub termcode: String,
    /// Course code.
    pub course_code: String,
    /// Display name.
    pub name: String,
    /// Local start time.
    pub starts_at: CivilDateTime,
    /// Local end time, when the service supplied one.
    pub ends_at: Option<CivilDateTime>,
    /// Group code.
    pub group: String,
    /// Room or venue.
    pub venue: String,
}

/// A scheduled class as plain values.
pub struct ClassView {
    pub termcode: Seq<char>,
    pub course_code: Seq<char>,
    pub name: Seq<char>,
    pub starts_at: CivilDateTime,
    pub ends_at: Option<CivilDateTime>,
    pub group: Seq<char>,
    pub venue: Seq<char>,
}

impl View for ScheduledClass {
    type V = ClassView;

    open spec fn view(&self) -> ClassView {
        ClassView {
            termcode: self.termcode@,
            course_code: self.course_code@,
            name: self.name@,
            starts_at: self.starts_at,
            ends_at: self.ends_at,
            group: self.group@,
            venue: self.venue@,
        }
    }
}

impl ScheduledClass {
    /// Both times are real datetimes.
    pub open spec fn wf(self) -> bool {
        &&& self.starts_at.wf()
        &&& self.ends_at matches Some(e) ==> e.wf()
    }

    /// Whether both times are real datetimes.
    pub fn is_valid(&self) -> (b: bool)
        ensures
            b == self.wf(),
    {
        self.starts_at.is_valid() && match &self.ends_at {
            Some(e) => e.is_valid(),
            None => true,
        }
    }

    /// Stable one-line description used in logs and notifications.
    pub fn label(&self) -> (r: String)
        ensures
            r@ == self.course_code@ + " - "@ + self.name@,
    {
        let mut r = self.course_code.clone();
        r.append(" - ");
        r.append(self.name.as_str());
        r
    }

    /// An independent copy.
    pub fn duplicate(&self) -> (r: ScheduledClass)
        ensures
            r@ == self@,
    {
        ScheduledClass {
            termcode: self.termcode.clone(),
            course_code: self.course_code.clone(),
            name: self.name.clone(),
            starts_at: self.starts_at,
            ends_at: self.ends_at,
            group: self.group.clone(),
            venue: self.venue.clone(),
        }
    }
}

/// The timetable for one day, after filtering.
#[derive(Debug, Clone)]
pub struct DaySchedule {
    /// Whether the service answered successfully.
    pub outcome: Outcome,
    /// Sessions occurring on the selected day.
    pub classes: Vec<ScheduledClass>,
}

/// The classes as plain values.
pub open spec fn classes_view(v: Seq<ScheduledClass>) -> Seq<ClassView> {
    v.map_values(|c: ScheduledClass| c@)
}

impl DaySchedule {
    /// Whether the service answered successfully.
    pub fn is_success(&self) -> (b: bool)
        ensures
            b == (self.outcome is Success),
    {
        self.outcome.is_success()
    }

    /// Every class holds real datetimes.
    pub open spec fn wf(self) -> bool {
        forall|i: int| 0 <= i < self.classes@.len() ==> (#[trigger] self.classes@[i]).wf()
    }
}

/// The class a session yields on `day`, if its start parses and falls on
/// `day`; an end that is blank is absent, one that does not parse is dropped.
pub open spec fn session_class(course: Course, s: Session, day: CivilDate) -> Option<ClassView> {
    match class_time_fields(s.datetime@) {
        None => None,
        Some(f) => if civil_of(f).date_of() == day {
            Some(
                ClassView {
                    termcode: course.termcode@,
                    course_code: course.course_code@,
                    name: s.name@,
                    starts_at: civil_of(f),
                    ends_at: if trim(s.endtime@).len() == 0 {
                        None
                    } else {
                        match class_time_fields(s.endtime@) {
                            Some(g) => Some(civil_of(g)),
                            None => None,
                        }
                    },
                    group: s.group@,
                    venue: s.venue@,
                },
            )
        } else {
            None
        },
    }
}

/// An optional element as a sequence of zero or one.
pub open spec fn opt_seq<A>(o: Option<A>) -> Seq<A> {
    match o {
        Some(a) => seq![a],
        None => Seq::empty(),
    }
}

/// The classes the first sessions of a course yield on `day`, in listing order.
pub open spec fn sessions_classes(course: Course, sessions: Seq<Session>, day: CivilDate) -> Seq<
    ClassView,
>
    decreases sessions.len(),
{
    if sessions.len() == 0 {
        Seq::empty()
    } else {
        sessions_classes(course, sessions.drop_last(), day) + opt_seq(
            session_class(course, sessions.last(), day),
        )
    }
}

/// The classes a course yields on `day`; none when it lacks its identifiers.
pub open spec fn course_classes(course: Course, day: CivilDate) -> Seq<ClassView> {
    if course.termcode@.len() == 0 || course.course_code@.len() == 0 {
        Seq::empty()
    } else {
        sessions_classes(course, course.sessions@, day)
    }
}

/// The classes the courses yield on `day`, in listing order.
pub open spec fn listed_classes(courses: Seq<Course>, day: CivilDate) -> Seq<ClassView>
    decreases courses.len(),
{
    if courses.len() == 0 {
        Seq::empty()
    } else {
        listed_classes(courses.drop_last(), day) + course_classes(courses.last(), day)
    }
}

/// Insert `x` after every class that does not start later than it.
pub open spec fn insert_by_start(s: Seq<ClassView>, x: ClassView) -> Seq<ClassView>
    decreases s.len(),
{
    if s.len() == 0 {
        seq![x]
    } else if x.starts_at.precedes(s.last().starts_at) {
        insert_by_start(s.drop_last(), x).push(s.last())
    } else {
        s.push(x)
    }
}

/// The classes ordered by start time; classes that start together keep their
/// listing order.
pub open spec fn sorted_by_start(s: Seq<ClassView>) -> Seq<ClassView>
    decreases s.len(),
{
    if s.len() == 0 {
        Seq::empty()
    } else {
        insert_by_start(sorted_by_start(s.drop_last()), s.last())
    }
}

/// No class starts before the one listed ahead of it.
pub open spec fn ordered_by_start(s: Seq<ClassView>) -> bool {
    forall|i: int, j: int| 0 <= i < j < s.len() ==> !s[j].starts_at.precedes(s[i].starts_at)
}

/// `precedes` orders datetimes strictly.
proof fn lemma_precedes_order(a: CivilDateTime, b: CivilDateTime, c: CivilDateTime)
    ensures
        !a.precedes(a),
        a.precedes(b) ==> !b.precedes(a),
        a.precedes(b) && b.precedes(c) ==> a.precedes(c),
        !a.precedes(b) && !b.precedes(c) ==> !a.precedes(c),
        !a.precedes(b) && a != b ==> b.precedes(a),
{
}

/// Inserting into an ordered sequence keeps it ordered.
proof fn lemma_insert_ordered(s: Seq<ClassView>, x: ClassView)
    requires
        ordered_by_start(s),
    ensures
        ordered_by_start(insert_by_start(s, x)),
        insert_by_start(s, x).len() == s.len() + 1,
    decreases s.len(),
{
    if s.len() == 0 {
        assert(insert_by_start(s, x) =~= seq![x]);
    } else {
        let last = s.last();
        let init = s.drop_last();
        assert(ordered_by_start(init));
        if x.starts_at.precedes(last.starts_at) {
            lemma_insert_ordered(init, x);
            let t = insert_by_start(init, x);
            assert forall|i: int, j: int| 0 <= i < j < t.push(last).len() implies !t.push(
                last,
            )[j].starts_at.precedes(t.push(last)[i].starts_at) by {
                if j == t.len() {
                    let e = t[i];
                    lemma_insert_members(init, x, i);
                    if e != x {
                        let k = choose|k: int| 0 <= k < init.len() && init[k] == e;
                        assert(s[k] == e);
                        assert(!s[s.len() - 1].starts_at.precedes(s[k].starts_at));
                    }
                    lemma_precedes_order(last.starts_at, e.starts_at, last.starts_at);
                    lemma_precedes_order(x.starts_at, last.starts_at, x.starts_at);
                } else {
                    assert(t.push(last)[j] == t[j]);
                    assert(t.push(last)[i] == t[i]);
                }
            }
        } else {
            assert forall|i: int, j: int| 0 <= i < j < s.push(x).len() implies !s.push(
                x,
            )[j].starts_at.precedes(s.push(x)[i].starts_at) by {
                if j == s.len() {
                    if i < s.len() - 1 {
                        assert(!s[s.len() - 1].starts_at.precedes(s[i].starts_at));
                    }
                    lemma_precedes_order(s[i].starts_at, last.starts_at, x.starts_at);
                    lemma_precedes_order(x.starts_at, last.starts_at, s[i].starts_at);
                    lemma_precedes_order(last.starts_at, s[i].starts_at, x.starts_at);
                    lemma_precedes_order(x.starts_at, s[i].starts_at, last.starts_at);
                } else {
                    assert(s.push(x)[j] == s[j]);
                    assert(s.push(x)[i] == s[i]);
                }
            }
        }
    }
}

/// The sort yields an ordered sequence of the same length as its input.
pub proof fn lemma_sorted_by_start(s: Seq<ClassView>)
    ensures
        ordered_by_start(sorted_by_start(s)),
        sorted_by_start(s).len() == s.len(),
    decreases s.len(),
{
    if s.len() > 0 {
        lemma_sorted_by_start(s.drop_last());
        lemma_insert_ordered(sorted_by_start(s.drop_last()), s.last());
    }
}

/// Inserting at the first place from the back where `x` no longer starts
/// earlier is what `insert_by_start` does.
proof fn lemma_insert_at(s: Seq<ClassView>, x: ClassView, p: int)
    requires
        0 <= p <= s.len(),
        forall|k: int| p <= k < s.len() ==> x.starts_at.precedes(#[trigger] s[k].starts_at),
        p > 0 ==> !x.starts_at.precedes(s[p - 1].starts_at),
    ensures
        insert_by_start(s, x) == s.insert(p, x),
    decreases s.len(),
{
    if s.len() == 0 {
        assert(s.insert(p, x) =~= seq![x]);
    } else if p == s.len() {
        assert(s.insert(p, x) =~= s.push(x));
    } else {
        assert(x.starts_at.precedes(s[s.len() - 1].starts_at));
        let init = s.drop_last();
        assert forall|k: int| p <= k < init.len() implies x.starts_at.precedes(
            #[trigger] init[k].starts_at,
        ) by {
            assert(init[k] == s[k]);
        }
        lemma_insert_at(init, x, p);
        assert(init.insert(p, x).push(s.last()) =~= s.insert(p, x));
    }
}

/// Insert `class` into `classes`, kept in start order, after every class that
/// does not start later.
fn insert_class(classes: &mut Vec<ScheduledClass>, class: ScheduledClass)
    ensures
        classes_view(final(classes)@) == insert_by_start(classes_view(old(classes)@), class@),
{
    let ghost s = classes_view(classes@);
    let mut p = classes.len();
    while p > 0 && class.starts_at.is_before(&classes[p - 1].starts_at)
        invariant
            p <= classes@.len(),
            s == classes_view(classes@),
            forall|k: int| p <= k < s.len() ==> class.starts_at.precedes(#[trigger] s[k].starts_at),
        decreases p,
    {
        p = p - 1;
    }
    proof {
        lemma_insert_at(s, class@, p as int);
    }
    let ghost old_v = classes@;
    classes.insert(p, class);
    assert(classes_view(classes@) =~= s.insert(p as int, class@)) by {
        assert(classes@ =~= old_v.insert(p as int, class));
    }
}

/// Select the sessions that occur on `day`, resolving their times.
///
/// A session whose start time cannot be parsed is dropped, because acting on
/// an uninterpretable time could mean submitting attendance at the wrong
/// moment; so is a course without a term code or course code. The classes come
/// out ordered by start time, those starting together in listing order.
pub fn select_day(timetable: &Timetable, day: CivilDate) -> (r: DaySchedule)
    ensures
        outcome_view(r.outcome) == outcome_view(timetable.outcome),
        classes_view(r.classes@) == sorted_by_start(listed_classes(timetable.courses@, day)),
        ordered_by_start(classes_view(r.classes@)),
        r.wf(),
{
    let mut classes: Vec<ScheduledClass> = Vec::new();
    let ghost mut listed: Seq<ClassView> = Seq::empty();
    let courses = &timetable.courses;
    let mut i: usize = 0;
    while i < courses.len()
        invariant
            i <= courses@.len(),
            courses == &timetable.courses,
            listed == listed_classes(courses@.take(i as int), day),
            classes_view(classes@) == sorted_by_start(listed),
            forall|k: int| 0 <= k < classes@.len() ==> (#[trigger] classes@[k]).wf(),
        decreases courses@.len() - i,
    {
        let course = &courses[i];
        assert(courses@.take(i + 1).drop_last() =~= courses@.take(i as int));
        if course.termcode.as_str().is_empty() || course.course_code.as_str().is_empty() {
            assert(course_classes(*course, day) =~= Seq::empty());
            proof {
                assert(listed + course_classes(*course, day) =~= listed);
            }
            i = i + 1;
            continue;
        }
        let ghost before = listed;
        let sessions = &course.sessions;
        let mut j: usize = 0;
        while j < sessions.len()
            invariant
                j <= sessions@.len(),
                sessions == &course.sessions,
                course.termcode@.len() > 0 && course.course_code@.len() > 0,
                listed == before + sessions_classes(*course, sessions@.take(j as int), day),
                classes_view(classes@) == sorted_by_start(listed),
                forall|k: int| 0 <= k < classes@.len() ==> (#[trigger] classes@[k]).wf(),
            decreases sessions@.len() - j,
        {
            let session = &sessions[j];
            assert(sessions@.take(j + 1).drop_last() =~= sessions@.take(j as int));
            assert(sessions@.take(j + 1).last() == *session);
            let ghost expected = session_class(*course, *session, day);
            match parse_class_time(session.datetime.as_str()) {
                Err(_) => {
                    proof {
                        assert(opt_seq(expected) =~= Seq::<ClassView>::empty());
                        assert(listed + opt_seq(expected) =~= listed);
                    }
                },
                Ok(started) => {
                    proof {
                        started.lemma_civil_of_fields();
                    }
                    if started.date() != day {
                        proof {
                            assert(opt_seq(expected) =~= Seq::<ClassView>::empty());
                            assert(listed + opt_seq(expected) =~= listed);
                        }
                    } else {
                        let ends_at = if is_blank(session.endtime.as_str()) {
                            None
                        } else {
                            match parse_class_time(session.endtime.as_str()) {
                                Ok(end) => {
                                    proof {
                                        end.lemma_civil_of_fields();
                                    }
                                    Some(end)
                                },
                                Err(_) => None,
                            }
                        };
                        let class = ScheduledClass {
                            termcode: course.termcode.clone(),
                            course_code: course.course_code.clone(),
                            name: session.name.clone(),
                            starts_at: started,
                            ends_at,
                            group: session.group.clone(),
                            venue: session.venue.clone(),
                        };
                        assert(expected == Some(class@));
                        let ghost old_classes = classes@;
                        insert_class(&mut classes, class);
                        proof {
                            assert(opt_seq(expected) =~= seq![class@]);
                            let next = listed + opt_seq(expected);
                            assert(next.drop_last() =~= listed);
                            assert(sorted_by_start(next) == insert_by_start(
                                sorted_by_start(listed),
                                class@,
                            ));
                            assert forall|k: int| 0 <= k < classes@.len() implies (
                            #[trigger] classes@[k]).wf() by {
                                assert(classes_view(classes@)[k] == classes@[k]@);
                                lemma_insert_members(classes_view(old_classes), class@, k);
                                if classes_view(classes@)[k] != class@ {
                                    let m = choose|m: int|
                                        0 <= m < old_classes.len()
                                            && classes_view(old_classes)[m] == classes_view(
                                            classes@,
                                        )[k];
                                    assert(old_classes[m].wf());
                                    assert(classes_view(old_classes)[m] == old_classes[m]@);
                                }
                            }
                        }
                    }
                },
            }
            proof {
                listed = listed + opt_seq(expected);
                assert(before + sessions_classes(*course, sessions@.take(j + 1), day) =~= before
                    + sessions_classes(*course, sessions@.take(j as int), day) + opt_seq(
                    expected,
                ));
            }
            j = j + 1;
        }
        proof {
            assert(sessions@.take(j as int) =~= sessions@);
        }
        i = i + 1;
    }
    proof {
        assert(courses@.take(i as int) =~= courses@);
        lemma_sorted_by_start(listed);
    }
    DaySchedule { outcome: timetable.outcome.duplicate(), classes }
}

/// Every member of an insertion is the inserted value or a member of the
/// sequence inserted into.
proof fn lemma_insert_members(s: Seq<ClassView>, x: ClassView, k: int)
    requires
        0 <= k < insert_by_start(s, x).len(),
    ensures
        insert_by_start(s, x)[k] == x || exists|m: int|
            0 <= m < s.len() && s[m] == insert_by_start(s, x)[k],
    decreases s.len(),
{
    if s.len() > 0 && x.starts_at.precedes(s.last().starts_at) {
        let t = insert_by_start(s.drop_last(), x);
        if k < t.len() {
            lemma_insert_members(s.drop_last(), x, k);
            if t[k] != x {
                let m = choose|m: int|
                    0 <= m < s.drop_last().len() && s.drop_last()[m] == t[k];
                assert(s[m] == t[k]);
            }
        } else {
            assert(s[s.len() - 1] == insert_by_start(s, x)[k]);
        }
    } else if s.len() > 0 {
        if k < s.len() {
            assert(s[k] == insert_by_start(s, x)[k]);
        }
    }
}

/// Whether a string is empty once trimmed.
fn is_blank(s: &str) -> (b: bool)
    ensures
        b == (trim(s@).len() == 0),
{
    let v = chars_of(s);
    let n = v.len();
    assert(v@.subrange(0, n as int) =~= v@);
    let (a, b) = trim_range(&v, 0, n);
    a == b
}

/// `strftime("%H:%M")`: the zero-padded hour and minute.
pub open spec fn hhmm(dt: CivilDateTime) -> Seq<char> {
    two_digits(dt.hour as int) + seq![':'] + two_digits(dt.minute as int)
}

/// The start, and the end when there is one, as `HH:MM - HH:MM`.
pub open spec fn time_range(c: ClassView) -> Seq<char> {
    match c.ends_at {
        Some(e) => hhmm(c.starts_at) + " - "@ + hhmm(e),
        None => hhmm(c.starts_at),
    }
}

/// The group in brackets, or nothing when there is no group.
pub open spec fn group_suffix(group: Seq<char>) -> Seq<char> {
    if group.len() > 0 {
        " ("@ + group + ")"@
    } else {
        Seq::empty()
    }
}

/// One class's block in the class-list message.
pub open spec fn class_block(c: ClassView) -> Seq<char> {
    "> **"@ + c.course_code + "** - "@ + c.name + "\n>  TIME: "@ + time_range(c) + "\n>  VENUE: "@
        + c.venue + group_suffix(c.group) + "\n"@
}

/// The blocks of the classes, in order.
pub open spec fn class_blocks(s: Seq<ClassView>) -> Seq<char>
    decreases s.len(),
{
    if s.len() == 0 {
        Seq::empty()
    } else {
        class_blocks(s.drop_last()) + class_block(s.last())
    }
}

/// The "retrieved classes" notification text.
pub open spec fn classes_message(success: bool, classes: Seq<ClassView>, stamp: Seq<char>) -> Seq<
    char,
> {
    if !success {
        "Failed to retrieve class information"@
    } else if classes.len() == 0 {
        "No classes scheduled for today!"@
    } else {
        "**Retrieved Classes:**\n"@ + "`System Time: "@ + stamp + "`\n\n"@ + class_blocks(classes)
    }
}

/// Append `HH:MM` for a datetime.
fn push_hhmm(msg: &mut String, dt: &CivilDateTime)
    requires
        dt.wf(),
    ensures
        final(msg)@ == old(msg)@ + hhmm(*dt),
{
    push_two_digits(msg, dt.hour as u8);
    push_char(msg, ':');
    push_two_digits(msg, dt.minute as u8);
    assert(msg@ =~= old(msg)@ + hhmm(*dt));
}

/// Append one class's block.
fn push_class_block(msg: &mut String, class: &ScheduledClass)
    requires
        class.wf(),
    ensures
        final(msg)@ == old(msg)@ + class_block(class@),
{
    let ghost start = msg@;
    push_str(msg, "> **");
    push_str(msg, class.course_code.as_str());
    push_str(msg, "** - ");
    push_str(msg, class.name.as_str());
    push_str(msg, "\n>  TIME: ");
    let ghost before_time = msg@;
    push_hhmm(msg, &class.starts_at);
    match &class.ends_at {
        Some(end) => {
            push_str(msg, " - ");
            push_hhmm(msg, end);
        },
        None => {},
    }
    assert(msg@ =~= before_time + time_range(class@));
    push_str(msg, "\n>  VENUE: ");
    push_str(msg, class.venue.as_str());
    let ghost before_group = msg@;
    if !class.group.as_str().is_empty() {
        push_str(msg, " (");
        push_str(msg, class.group.as_str());
        push_str(msg, ")");
    }
    assert(msg@ =~= before_group + group_suffix(class.group@));
    push_str(msg, "\n");
    assert(msg@ =~= start + class_block(class@));
}

/// Build the "retrieved classes" notification text.
pub fn format_classes_message(schedule: &DaySchedule, system_time: &str) -> (r: String)
    requires
        schedule.wf(),
    ensures
        r@ == classes_message(
            schedule.outcome is Success,
            classes_view(schedule.classes@),
            system_time@,
        ),
{
    if !schedule.is_success() {
        return "Failed to retrieve class information".to_string();
    }
    if schedule.classes.len() == 0 {
        return "No classes scheduled for today!".to_string();
    }
    let mut message = "**Retrieved Classes:**\n".to_string();
    push_str(&mut message, "`System Time: ");
    push_str(&mut message, system_time);
    push_str(&mut message, "`\n\n");
    let ghost header = message@;
    let classes = &schedule.classes;
    let mut i: usize = 0;
    while i < classes.len()
        invariant
            i <= classes@.len(),
            classes == &schedule.classes,
            schedule.wf(),
            message@ == header + class_blocks(classes_view(classes@).take(i as int)),
        decreases classes@.len() - i,
    {
        assert(schedule.classes@[i as int].wf());
        push_class_block(&mut message, &classes[i]);
        assert(classes_view(classes@).take(i + 1).drop_last() =~= classes_view(classes@).take(
            i as int,
        ));
        i = i + 1;
    }
    assert(classes_view(classes@).take(i as int) =~= classes_view(classes@));
    message
}

/// A class resolved for scheduling, with the per-course activities page.
#[derive(Debug, Clone)]
pub struct ClassInfo {
    /// Term identifier.
    pub termcode: String,
    /// Course code.
    pub course_code: String,
    /// Display name.
    pub class_name: String,
    /// Local start time.
    pub starts_at: CivilDateTime,
    /// Local end time; `None` when the API omitted it.
    pub ends_at: Option<CivilDateTime>,
    /// Group code.
    pub group: String,
    /// Room or venue.
    pub venue: String,
    /// Class-activities page for this course.
    pub activities_url: String,
}

impl ClassInfo {
    /// Stable one-line description used in logs.
    pub fn label(&self) -> (r: String)
        ensures
            r@ == self.course_code@ + " - "@ + self.class_name@,
    {
        let mut r = self.course_code.clone();
        r.append(" - ");
        r.append(self.class_name.as_str());
        r
    }
}

} // verus!
