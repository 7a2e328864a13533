//! The OLE class-activities pages: finding the attendance activity of a class.
//!
//! Fetching the pages is the caller's job; reading them, and deciding which
//! page to read next, is done here.

use vstd::prelude::*;

use crate::cookie::str_eq;
use crate::error::AppError;
use crate::html::{
    attribute_value_chars, attribute_value_spec, is_login_redirect, is_login_redirect_spec, js_var,
    js_var_spec, opt_view, tag_at, tag_at_exec,
};
use crate::schedule::ScheduledClass;
use crate::text::{
    all_digits, chars_of, decimal_value, find, find_char_from, find_from, find_from_exec, is_digit,
    is_hex_digit, nat_digits,
    nat_text_exec, parse_i64, parse_i64_spec, push_char, push_str, rfind_char, rfind_char_exec,
    starts_with, string_from,
};
use crate::time::{lemma_two_digits, push_two_digits, two_digits};

verus! {

/// Attendance activity type used by the class-activities system.
pub const ATTENDANCE_TYPE: &'static str = "2";

/// An attendance activity discovered on a course page.
#[derive(Debug, Clone)]
pub struct Activity {
    /// Domino document identifier of the activity.
    pub unid: String,
    /// Raw attendance type reported by the page.
    pub attendance_type: String,
    /// Whether the page reports a running submission window.
    pub open: bool,
    /// The submission request the page declares, when it declares one.
    pub take_url: Option<String>,
}

/// An activity as plain values: identifier, type, open window, declared
/// submission request.
pub open spec fn activity_view(a: Activity) -> (Seq<char>, Seq<char>, bool, Option<Seq<char>>) {
    (a.unid@, a.attendance_type@, a.open, opt_view(a.take_url))
}

impl Activity {
    /// Whether this activity is the geolocation-backed attendance type.
    pub fn is_attendance(&self) -> (b: bool)
        ensures
            b == (self.attendance_type@ == ATTENDANCE_TYPE@),
    {
        str_eq(self.attendance_type.as_str(), ATTENDANCE_TYPE)
    }
}

/// A task-list entry rendered on a class-activities page.
#[derive(Debug, Clone, PartialEq, Eq)]
pub struct TaskLink {
    /// Domino document identifier carried by the link's `href`.
    pub unid: String,
    /// `classid` attribute, e.g. `L01-20260921-11:00-N`.
    pub class_id: String,
}

/// A task link as plain values.
pub open spec fn task_view(t: TaskLink) -> (Seq<char>, Seq<char>) {
    (t.unid@, t.class_id@)
}

/// The task links as plain values.
pub open spec fn tasks_view(v: Seq<TaskLink>) -> Seq<(Seq<char>, Seq<char>)> {
    v.map_values(|t: TaskLink| task_view(t))
}

/// Four zero-padded decimal digits of a value below 10000.
pub open spec fn four_digits(n: int) -> Seq<char> {
    two_digits(n / 100) + two_digits(n % 100)
}

/// `strftime("%Y")` of a year: four digits, zero-padded; a negative year is
/// its sign and at least three digits.
pub open spec fn year_text(y: int) -> Seq<char> {
    if y >= 0 {
        four_digits(y)
    } else if -y >= 1000 {
        seq!['-'] + nat_digits((-y) as nat)
    } else {
        seq!['-', (('0' as int) + (-y) / 100) as char] + two_digits((-y) % 100)
    }
}

/// The `classid` prefix that identifies a class's task entry:
/// `{group}-{YYYYMMDD}-{HH:MM}`.
pub open spec fn expected_class_id_spec(class: ScheduledClass) -> Seq<char> {
    let s = class.starts_at;
    class.group@ + seq!['-'] + year_text(s.year as int) + two_digits(s.month as int) + two_digits(
        s.day as int,
    ) + seq!['-'] + two_digits(s.hour as int) + seq![':'] + two_digits(s.minute as int)
}

/// Build the `classid` prefix that identifies this class's task entry.
///
/// The page encodes `{group}-{YYYYMMDD}-{HH:MM}` followed by an activity-type
/// suffix such as `-N`, so matching on this prefix selects the intended
/// session without depending on the suffix.
pub fn expected_class_id(class: &ScheduledClass) -> (r: String)
    requires
        class.starts_at.wf(),
    ensures
        r@ == expected_class_id_spec(*class),
{
    let s = class.starts_at;
    let mut r = class.group.clone();
    push_char(&mut r, '-');
    let ghost before_year = r@;
    if s.year >= 0 {
        let y = s.year as u16;
        push_two_digits(&mut r, (y / 100) as u8);
        push_two_digits(&mut r, (y % 100) as u8);
    } else {
        let y = (-(s.year as i32)) as u16;
        push_char(&mut r, '-');
        if y >= 1000 {
            let digits = nat_text_exec(y as u64);
            push_str(&mut r, digits.as_str());
        } else {
            let hundreds = ((y / 100) as u8 + 48) as char;
            push_char(&mut r, hundreds);
            push_two_digits(&mut r, (y % 100) as u8);
        }
    }
    assert(r@ =~= before_year + year_text(s.year as int));
    push_two_digits(&mut r, s.month as u8);
    push_two_digits(&mut r, s.day as u8);
    push_char(&mut r, '-');
    push_two_digits(&mut r, s.hour as u8);
    push_char(&mut r, ':');
    push_two_digits(&mut r, s.minute as u8);
    assert(r@ =~= expected_class_id_spec(*class));
    r
}

/// Whether `t[from..to]` is all decimal digits whose value is `v`.
pub open spec fn digits_field(t: Seq<char>, from: int, to: int, v: int) -> bool {
    &&& 0 <= from <= to <= t.len()
    &&& all_digits(t.subrange(from, to))
    &&& decimal_value(t.subrange(from, to)) == v
}

/// Four digits read back as the number below 10000 they render.
proof fn lemma_four_digits(n: int)
    requires
        0 <= n < 10000,
    ensures
        four_digits(n).len() == 4,
        all_digits(four_digits(n)),
        decimal_value(four_digits(n)) == n,
{
    let t = four_digits(n);
    let hi = two_digits(n / 100);
    let lo = two_digits(n % 100);
    lemma_two_digits(n / 100);
    lemma_two_digits(n % 100);
    reveal_with_fuel(decimal_value, 5);
    assert(t.drop_last() =~= seq![hi[0], hi[1], lo[0]]);
    assert(t.drop_last().drop_last() =~= seq![hi[0], hi[1]]);
    assert(t.drop_last().drop_last().drop_last() =~= seq![hi[0]]);
    assert(hi.drop_last() =~= seq![hi[0]]);
    assert(lo.drop_last() =~= seq![lo[0]]);
    assert(seq![hi[0]].drop_last() =~= Seq::<char>::empty());
    assert(seq![lo[0]].drop_last() =~= Seq::<char>::empty());
    assert(decimal_value(t) == decimal_value(hi) * 100 + decimal_value(lo));
    assert(all_digits(t)) by {
        assert forall|k: int| 0 <= k < 4 implies is_digit(#[trigger] t[k]) by {
            if k < 2 {
                assert(t[k] == hi[k]);
            } else {
                assert(t[k] == lo[k - 2]);
            }
        }
    }
}

/// The class id is the group, a dash, then the date and time the class starts
/// at: whatever the year, it ends in `-HH:MM`, the hour and minute in exactly
/// two digits each; from year 0 on, the part after the group is
/// `YYYYMMDD-HH:MM`, fourteen characters, every field zero-padded and reading
/// back as the start's year, month, day, hour and minute.
pub proof fn lemma_class_id_layout(class: ScheduledClass)
    requires
        class.starts_at.wf(),
    ensures
        ({
            let id = expected_class_id_spec(class);
            let g = class.group@.len() as int;
            let n = id.len() as int;
            let s = class.starts_at;
            &&& id.take(g) == class.group@
            &&& g + 7 <= n
            &&& id[g] == '-'
            &&& id[n - 6] == '-'
            &&& id[n - 3] == ':'
            &&& digits_field(id, n - 5, n - 3, s.hour as int)
            &&& digits_field(id, n - 2, n, s.minute as int)
            &&& s.year >= 0 ==> {
                &&& n == g + 15
                &&& digits_field(id, g + 1, g + 5, s.year as int)
                &&& digits_field(id, g + 5, g + 7, s.month as int)
                &&& digits_field(id, g + 7, g + 9, s.day as int)
            }
        }),
{
    let id = expected_class_id_spec(class);
    let s = class.starts_at;
    let grp = class.group@;
    let g = grp.len() as int;
    let yt = year_text(s.year as int);
    let mo = two_digits(s.month as int);
    let dd = two_digits(s.day as int);
    let hh = two_digits(s.hour as int);
    let mi = two_digits(s.minute as int);
    lemma_two_digits(s.month as int);
    lemma_two_digits(s.day as int);
    lemma_two_digits(s.hour as int);
    lemma_two_digits(s.minute as int);
    let head = grp + seq!['-'] + yt + mo + dd;
    assert(id =~= head + seq!['-'] + hh + seq![':'] + mi);
    let n = id.len() as int;
    assert(id.take(g) =~= grp);
    assert(id.subrange(n - 5, n - 3) =~= hh);
    assert(id.subrange(n - 2, n) =~= mi);
    if s.year >= 0 {
        lemma_four_digits(s.year as int);
        assert(id.subrange(g + 1, g + 5) =~= yt);
        assert(id.subrange(g + 5, g + 7) =~= mo);
        assert(id.subrange(g + 7, g + 9) =~= dd);
    } else {
        assert(yt.len() >= 1);
    }
}

/// Whether every character is an ASCII hex digit.
pub open spec fn all_hex(s: Seq<char>) -> bool {
    forall|i: int| 0 <= i < s.len() ==> is_hex_digit(#[trigger] s[i])
}

/// A Domino document identifier: 32 hex digits.
pub open spec fn is_document_id(s: Seq<char>) -> bool {
    s.len() == 32 && all_hex(s)
}

/// The `classid` of the tag around position `href_at`: the attribute of the
/// tag opened by the last `<` before it, or empty.
pub open spec fn class_id_at(page: Seq<char>, href_at: int) -> Seq<char> {
    let tag_start = match rfind_char(page.take(href_at), '<') {
        Some(t) => t,
        None => 0,
    };
    let tag = match tag_at(page, tag_start) {
        Some(t) => t,
        None => Seq::empty(),
    };
    match attribute_value_spec(tag, "classid"@) {
        Some(c) => c,
        None => Seq::empty(),
    }
}

/// The task links found from `cursor` on: each `href='...'` whose value is a
/// document identifier, with the `classid` of its tag.
pub open spec fn task_links_from(page: Seq<char>, cursor: int) -> Seq<(Seq<char>, Seq<char>)>
    decreases page.len() + 1 - cursor,
{
    match find_from(page, "href='"@, cursor) {
        None => Seq::empty(),
        Some(href_at) => {
            let value_start = href_at + 6;
            match find_from(page, seq!['\''], value_start) {
                None => Seq::empty(),
                Some(q) => if cursor <= href_at && value_start <= q < page.len() {
                    let unid = page.subrange(value_start, q);
                    let here = if is_document_id(unid) {
                        seq![(unid, class_id_at(page, href_at))]
                    } else {
                        Seq::empty()
                    };
                    here + task_links_from(page, q + 1)
                } else {
                    Seq::empty()
                },
            }
        },
    }
}

/// Whether `c` is an ASCII hex digit.
fn is_hex_digit_exec(c: char) -> (b: bool)
    ensures
        b == is_hex_digit(c),
{
    ('0' <= c && c <= '9') || ('a' <= c && c <= 'f') || ('A' <= c && c <= 'F')
}

/// Whether `s[from..to]` is a document identifier.
fn is_document_id_range(s: &[char], from: usize, to: usize) -> (b: bool)
    requires
        from <= to <= s@.len(),
    ensures
        b == is_document_id(s@.subrange(from as int, to as int)),
{
    if to - from != 32 {
        return false;
    }
    let mut i = from;
    while i < to
        invariant
            from <= i <= to <= s@.len(),
            forall|k: int| from <= k < i ==> is_hex_digit(#[trigger] s@[k]),
        decreases to - i,
    {
        if !is_hex_digit_exec(s[i]) {
            assert(!is_hex_digit(s@.subrange(from as int, to as int)[i - from]));
            return false;
        }
        i = i + 1;
    }
    assert forall|k: int| 0 <= k < to - from implies is_hex_digit(
        #[trigger] s@.subrange(from as int, to as int)[k],
    ) by {
        assert(s@.subrange(from as int, to as int)[k] == s@[from + k]);
    }
    true
}

/// The `classid` of the tag around position `href_at`.
fn class_id_exec(h: &[char], href_at: usize) -> (r: String)
    requires
        href_at <= h@.len(),
    ensures
        r@ == class_id_at(h@, href_at as int),
{
    let tag_start = match rfind_char_exec(h, '<', href_at) {
        Some(t) => t,
        None => 0,
    };
    let tag: Vec<char> = match tag_at_exec(h, tag_start) {
        Some(t) => t,
        None => Vec::new(),
    };
    let name = chars_of("classid");
    match attribute_value_chars(tag.as_slice(), name.as_slice()) {
        Some(c) => c,
        None => String::new(),
    }
}

/// Collect every task link on a class-activities page, in page order.
pub fn task_links(page: &str) -> (r: Vec<TaskLink>)
    ensures
        tasks_view(r@) == task_links_from(page@, 0),
{
    let h = chars_of(page);
    let pat = chars_of("href='");
    proof {
        reveal_strlit("href='");
    }
    let mut links: Vec<TaskLink> = Vec::new();
    let mut cursor: usize = 0;
    let ghost mut rest = task_links_from(h@, 0);
    while cursor <= h.len()
        invariant
            h@ == page@,
            pat@ == "href='"@,
            pat@.len() == 6,
            cursor <= h@.len() + 1,
            tasks_view(links@) + task_links_from(h@, cursor as int) == task_links_from(h@, 0),
        decreases h@.len() + 1 - cursor,
    {
        let href_at = match find_from_exec(h.as_slice(), pat.as_slice(), cursor) {
            None => {
                assert(tasks_view(links@) =~= task_links_from(h@, 0));
                return links;
            },
            Some(k) => k,
        };
        let value_start = href_at + 6;
        let q = match find_char_from(h.as_slice(), '\'', value_start) {
            None => {
                assert(tasks_view(links@) =~= task_links_from(h@, 0));
                return links;
            },
            Some(q) => q,
        };
        let ghost here_spec = if is_document_id(h@.subrange(value_start as int, q as int)) {
            seq![(h@.subrange(value_start as int, q as int), class_id_at(h@, href_at as int))]
        } else {
            Seq::empty()
        };
        let ghost links_before = links@;
        if is_document_id_range(h.as_slice(), value_start, q) {
            let unid = string_from(h.as_slice(), value_start, q);
            let class_id = class_id_exec(h.as_slice(), href_at);
            links.push(TaskLink { unid, class_id });
            assert(tasks_view(links@) =~= tasks_view(links_before) + here_spec);
        } else {
            assert(tasks_view(links@) =~= tasks_view(links_before) + here_spec);
        }
        assert(task_links_from(h@, cursor as int) == here_spec + task_links_from(h@, q + 1));
        assert(tasks_view(links@) + task_links_from(h@, q + 1) =~= tasks_view(links_before)
            + task_links_from(h@, cursor as int));
        cursor = q + 1;
    }
    proof {
        assert(find_from(h@, "href='"@, cursor as int) is None);
        assert(tasks_view(links@) =~= task_links_from(h@, 0));
    }
    links
}

/// The integer a page variable holds, or zero when it is absent or not an
/// integer.
pub open spec fn page_int(page: Seq<char>, name: Seq<char>) -> int {
    match js_var_spec(page, name) {
        Some(v) => match parse_i64_spec(v) {
            Some(n) => n as int,
            None => 0,
        },
        None => 0,
    }
}

/// Whether an activity document reports a running window: time is left and
/// the window has started.
pub open spec fn activity_is_open_spec(document: Seq<char>) -> bool {
    page_int(document, "time_left_second"@) > 0 && page_int(document, "time_to_start_second"@) <= 0
}

/// The integer a page variable holds, or zero.
fn page_int_exec(page: &str, name: &str) -> (n: i64)
    ensures
        n as int == page_int(page@, name@),
{
    match js_var(page, name) {
        Some(v) => match parse_i64(v.as_str()) {
            Some(n) => n,
            None => 0,
        },
        None => 0,
    }
}

/// Whether an activity document reports a running window.
pub fn activity_is_open(document: &str) -> (b: bool)
    ensures
        b == activity_is_open_spec(document@),
{
    let remaining = page_int_exec(document, "time_left_second");
    let starts_in = page_int_exec(document, "time_to_start_second");
    remaining > 0 && starts_in <= 0
}

/// The activity a page embeds: present when it declares a non-empty `unid`.
pub open spec fn activity_from_page_spec(page: Seq<char>) -> Option<
    (Seq<char>, Seq<char>, bool, Option<Seq<char>>),
> {
    match js_var_spec(page, "unid"@) {
        None => None,
        Some(unid) => if unid.len() == 0 {
            None
        } else {
            Some(
                (
                    unid,
                    match js_var_spec(page, "attendance_type"@) {
                        Some(t) => t,
                        None => Seq::empty(),
                    },
                    activity_is_open_spec(page),
                    js_var_spec(page, "take_url"@),
                ),
            )
        },
    }
}

/// Extract an activity directly embedded in a page.
pub fn activity_from_page(page: &str) -> (r: Option<Activity>)
    ensures
        match r {
            Some(a) => activity_from_page_spec(page@) == Some(activity_view(a)),
            None => activity_from_page_spec(page@) is None,
        },
{
    let unid = match js_var(page, "unid") {
        Some(u) => u,
        None => {
            return None;
        },
    };
    if unid.as_str().is_empty() {
        return None;
    }
    let attendance_type = match js_var(page, "attendance_type") {
        Some(t) => t,
        None => String::new(),
    };
    let open = activity_is_open(page);
    let take_url = js_var(page, "take_url");
    Some(Activity { unid, attendance_type, open, take_url })
}

/// The tasks whose class id starts with `prefix`, in order.
pub open spec fn tasks_matching(tasks: Seq<(Seq<char>, Seq<char>)>, prefix: Seq<char>, wanted: bool) -> Seq<
    (Seq<char>, Seq<char>),
>
    decreases tasks.len(),
{
    if tasks.len() == 0 {
        Seq::empty()
    } else {
        let last = tasks.last();
        tasks_matching(tasks.drop_last(), prefix, wanted) + (if starts_with(last.1, prefix) == wanted {
            seq![last]
        } else {
            Seq::empty()
        })
    }
}

/// Put the tasks whose class id starts with `expected` first, each group in
/// page order, so the class's own session is tried before any other.
pub fn order_tasks(tasks: &Vec<TaskLink>, expected: &str) -> (r: Vec<TaskLink>)
    ensures
        tasks_view(r@) == tasks_matching(tasks_view(tasks@), expected@, true) + tasks_matching(
            tasks_view(tasks@),
            expected@,
            false,
        ),
{
    let mut first: Vec<TaskLink> = Vec::new();
    let mut second: Vec<TaskLink> = Vec::new();
    let mut i: usize = 0;
    while i < tasks.len()
        invariant
            i <= tasks@.len(),
            tasks_view(first@) == tasks_matching(tasks_view(tasks@).take(i as int), expected@, true),
            tasks_view(second@) == tasks_matching(
                tasks_view(tasks@).take(i as int),
                expected@,
                false,
            ),
        decreases tasks@.len() - i,
    {
        let t = &tasks[i];
        let ghost prefix = tasks_view(tasks@).take(i + 1);
        assert(prefix.drop_last() =~= tasks_view(tasks@).take(i as int));
        assert(prefix.last() == task_view(*t));
        let ghost f0 = first@;
        let ghost s0 = second@;
        if class_id_starts_with(t.class_id.as_str(), expected) {
            first.push(TaskLink { unid: t.unid.clone(), class_id: t.class_id.clone() });
            assert(tasks_view(first@) =~= tasks_view(f0) + seq![task_view(*t)]);
            assert(tasks_view(second@) =~= tasks_view(s0) + Seq::empty());
        } else {
            second.push(TaskLink { unid: t.unid.clone(), class_id: t.class_id.clone() });
            assert(tasks_view(second@) =~= tasks_view(s0) + seq![task_view(*t)]);
            assert(tasks_view(first@) =~= tasks_view(f0) + Seq::empty());
        }
        i = i + 1;
    }
    assert(tasks_view(tasks@).take(i as int) =~= tasks_view(tasks@));
    let ghost f = first@;
    let mut j: usize = 0;
    while j < second.len()
        invariant
            j <= second@.len(),
            first@ == f + second@.take(j as int),
        decreases second@.len() - j,
    {
        first.push(TaskLink { unid: second[j].unid.clone(), class_id: second[j].class_id.clone() });
        assert(first@ =~= f + second@.take(j + 1)) by {
            assert(first@.last() == TaskLink {
                unid: second@[j as int].unid,
                class_id: second@[j as int].class_id,
            });
        }
        j = j + 1;
    }
    assert(second@.take(j as int) =~= second@);
    assert(tasks_view(first@) =~= tasks_view(f) + tasks_view(second@));
    first
}

/// Whether `s` starts with `prefix`.
fn class_id_starts_with(s: &str, prefix: &str) -> (b: bool)
    ensures
        b == starts_with(s@, prefix@),
{
    let a = chars_of(s);
    let p = chars_of(prefix);
    crate::text::matches_at_exec(a.as_slice(), p.as_slice(), 0)
}

/// The URL of an activity document: the course database of the activities
/// page, then `/0/{unid}?OpenDocument`.
pub open spec fn document_url_spec(activities_url: Seq<char>, unid: Seq<char>) -> Seq<char> {
    let database = match find(activities_url, ".nsf"@) {
        Some(i) => activities_url.take(i),
        None => activities_url,
    };
    database + ".nsf/0/"@ + unid + "?OpenDocument"@
}

/// Build the URL of an activity document within a course database.
pub fn activity_document_url(activities_url: &str, unid: &str) -> (r: String)
    ensures
        r@ == document_url_spec(activities_url@, unid@),
{
    let h = chars_of(activities_url);
    let pat = chars_of(".nsf");
    let end = match find_from_exec(h.as_slice(), pat.as_slice(), 0) {
        Some(i) => i,
        None => h.len(),
    };
    let mut r = string_from(h.as_slice(), 0, end);
    assert(r@ =~= (match find(h@, pat@) {
        Some(i) => h@.take(i),
        None => h@,
    }));
    push_str(&mut r, ".nsf/0/");
    push_str(&mut r, unid);
    push_str(&mut r, "?OpenDocument");
    r
}

/// How the search for a class's activity begins, after reading the list page.
pub enum DiscoveryStart {
    /// The page is the login flow: the session was revoked.
    Expired(AppError),
    /// The page embeds the activity itself.
    Found(Activity),
    /// Open these tasks' documents, in this order, until one is an open
    /// attendance activity.
    Scan(Vec<TaskLink>),
}

/// The message of a list page that redirected to the login flow.
pub open spec fn revoked_message(activities_url: Seq<char>) -> Seq<char> {
    activities_url + " redirected to the login flow; the session was revoked server-side"@
}

/// Read the class-activities list page of `class`, fetched from
/// `activities_url`.
pub fn begin_discovery(list: &str, class: &ScheduledClass, activities_url: &str) -> (r: DiscoveryStart)
    requires
        class.starts_at.wf(),
    ensures
        is_login_redirect_spec(list@) ==> (r matches DiscoveryStart::Expired(AppError::SessionExpired(m))
            && m@ == revoked_message(activities_url@)),
        !is_login_redirect_spec(list@) && activity_from_page_spec(list@) is Some ==> (r matches DiscoveryStart::Found(
            a,
        ) && activity_from_page_spec(list@) == Some(activity_view(a))),
        !is_login_redirect_spec(list@) && activity_from_page_spec(list@) is None ==> (r matches DiscoveryStart::Scan(
            tasks,
        ) && tasks_view(tasks@) == tasks_matching(
            task_links_from(list@, 0),
            expected_class_id_spec(*class),
            true,
        ) + tasks_matching(task_links_from(list@, 0), expected_class_id_spec(*class), false)),
{
    if is_login_redirect(list) {
        let mut m = activities_url.to_string();
        push_str(&mut m, " redirected to the login flow; the session was revoked server-side");
        return DiscoveryStart::Expired(AppError::SessionExpired(m));
    }
    if let Some(activity) = activity_from_page(list) {
        return DiscoveryStart::Found(activity);
    }
    let expected = expected_class_id(class);
    let tasks = task_links(list);
    DiscoveryStart::Scan(order_tasks(&tasks, expected.as_str()))
}

/// The search through task documents: the first attendance activity seen,
/// kept in case no open one turns up.
pub struct DiscoveryScan {
    /// The first closed attendance activity seen so far.
    pub fallback: Option<Activity>,
}

/// Whether a document's activity ends the search: an attendance activity
/// whose window is open.
pub open spec fn ends_search(document: Seq<char>) -> bool {
    activity_from_page_spec(document) matches Some(a) && a.1 == ATTENDANCE_TYPE@ && a.2
}

/// Whether a document offers a fallback: an attendance activity whose window
/// is closed.
pub open spec fn offers_fallback(document: Seq<char>) -> bool {
    activity_from_page_spec(document) matches Some(a) && a.1 == ATTENDANCE_TYPE@ && !a.2
}

impl DiscoveryScan {
    /// A search that has seen nothing yet.
    pub fn new() -> (s: DiscoveryScan)
        ensures
            s.fallback is None,
    {
        DiscoveryScan { fallback: None }
    }

    /// Read one task's activity document.
    ///
    /// Returns the activity when it is an open attendance activity, which
    /// ends the search; otherwise keeps the first closed attendance activity
    /// as the fallback, and ignores anything else.
    pub fn consider(&mut self, document: &str) -> (r: Option<Activity>)
        ensures
            ends_search(document@) ==> (r matches Some(a) && activity_from_page_spec(document@) == Some(
                activity_view(a),
            ) && final(self).fallback == old(self).fallback),
            !ends_search(document@) ==> r is None,
            !ends_search(document@) && offers_fallback(document@) && old(self).fallback is None ==> (
            final(self).fallback matches Some(a) && activity_from_page_spec(document@) == Some(
                activity_view(a),
            )),
            !(offers_fallback(document@) && old(self).fallback is None) ==> final(self).fallback
                == old(self).fallback,
    {
        let activity = match activity_from_page(document) {
            Some(a) => a,
            None => {
                return None;
            },
        };
        if !activity.is_attendance() {
            return None;
        }
        if activity.open {
            return Some(activity);
        }
        if self.fallback.is_none() {
            self.fallback = Some(activity);
        }
        None
    }

    /// End a search that found no open activity: the fallback, or an error
    /// naming the page.
    pub fn conclude(self, activities_url: &str) -> (r: Result<Activity, AppError>)
        ensures
            match self.fallback {
                Some(a) => r == Ok::<Activity, AppError>(a),
                None => r matches Err(AppError::Parse(m)) && m@ == "no attendance activity found on "@
                    + activities_url@,
            },
    {
        match self.fallback {
            Some(a) => Ok(a),
            None => {
                let mut m = "no attendance activity found on ".to_string();
                push_str(&mut m, activities_url);
                Err(AppError::Parse(m))
            },
        }
    }
}

} // verus!
