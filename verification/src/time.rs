//! Wall-clock values and the arithmetic the scheduler needs.
//!
//! Everything here is a function over values: the current instant is always
//! supplied by the caller, which is what makes the decision logic provable.
//! Calendar work (parsing, adding minutes, the next day) and placing a civil
//! time in a zone are done by `jiff`.

use vstd::prelude::*;

use crate::error::DomainError;
use crate::text::{
    all_digits, before_first, chars_of, decimal_value, find_char_range, is_digit, is_ws,
    lemma_find_char_unique, lemma_ws_prefix_unique, lemma_ws_suffix_unique, push_char,
    split_once, trim, trim_end, trim_range, trim_start,
};

verus! {

/// `jiff::tz::TimeZone`, carried through to `jiff` untouched.
#[verifier::external_type_specification]
#[verifier::external_body]
pub struct ExTimeZone(jiff::tz::TimeZone);

/// A civil (wall-clock) date and time, without a zone.
#[derive(Clone, Copy, PartialEq, Eq, Structural, Debug)]
pub struct CivilDateTime {
    pub year: i16,
    pub month: i8,
    pub day: i8,
    pub hour: i8,
    pub minute: i8,
    pub second: i8,
}

/// Whether `year` is a leap year of the proleptic Gregorian calendar.
pub open spec fn is_leap_year(year: int) -> bool {
    year % 4 == 0 && (year % 100 != 0 || year % 400 == 0)
}

/// The number of days in `month` of `year`.
pub open spec fn days_in_month(year: int, month: int) -> int {
    if month == 2 {
        if is_leap_year(year) {
            29
        } else {
            28
        }
    } else if month == 4 || month == 6 || month == 9 || month == 11 {
        30
    } else {
        31
    }
}

/// The number of days in `month` of `year`.
pub fn month_length(year: i16, month: i8) -> (d: i8)
    ensures
        d == days_in_month(year as int, month as int),
{
    let y = (year as i32) + 10000;
    assert(y % 4 == year % 4 && y % 100 == year % 100 && y % 400 == year % 400) by {
        assert(y == year + 400 * 25);
    }
    if month == 2 {
        if y % 4 == 0 && (y % 100 != 0 || y % 400 == 0) {
            29
        } else {
            28
        }
    } else if month == 4 || month == 6 || month == 9 || month == 11 {
        30
    } else {
        31
    }
}

/// The date after (year, month, day): the next day of the month, else the
/// first of the next month, else the first of the next year; `None` after the
/// last date `jiff` represents, 9999-12-31.
pub open spec fn next_date(year: int, month: int, day: int) -> Option<(int, int, int)> {
    if day < days_in_month(year, month) {
        Some((year, month, day + 1))
    } else if month < 12 {
        Some((year, month + 1, 1))
    } else if year < 9999 {
        Some((year + 1, 1, 1))
    } else {
        None
    }
}

/// A civil (wall-clock) date, without a time of day.
#[derive(Clone, Copy, PartialEq, Eq, Structural, Debug)]
pub struct CivilDate {
    pub year: i16,
    pub month: i8,
    pub day: i8,
}

/// The datetime whose fields are the given tuple.
pub open spec fn civil_of(f: (int, int, int, int, int, int)) -> CivilDateTime {
    CivilDateTime {
        year: f.0 as i16,
        month: f.1 as i8,
        day: f.2 as i8,
        hour: f.3 as i8,
        minute: f.4 as i8,
        second: f.5 as i8,
    }
}

/// An instant together with the civil time it shows in some zone.
#[derive(Clone, Copy, PartialEq, Eq, Structural, Debug)]
pub struct ZonedTime {
    /// Seconds since the Unix epoch.
    pub timestamp: i64,
    /// The wall-clock reading at that instant in the zone.
    pub civil: CivilDateTime,
}

impl CivilDateTime {
    /// The ranges every `jiff::civil::DateTime` keeps to: a real date of
    /// the proleptic Gregorian calendar and a real time of day.
    pub open spec fn wf(self) -> bool {
        &&& -9999 <= self.year <= 9999
        &&& 1 <= self.month <= 12
        &&& 1 <= self.day <= days_in_month(self.year as int, self.month as int)
        &&& 0 <= self.hour <= 23
        &&& 0 <= self.minute <= 59
        &&& 0 <= self.second <= 59
    }

    /// The fields as a tuple, the form the named `jiff` results use.
    pub open spec fn fields(self) -> (int, int, int, int, int, int) {
        (
            self.year as int,
            self.month as int,
            self.day as int,
            self.hour as int,
            self.minute as int,
            self.second as int,
        )
    }

    /// Chronological order: `jiff` orders datetimes field by field, the
    /// largest unit first.
    pub open spec fn precedes(self, other: CivilDateTime) -> bool {
        if self.year != other.year {
            self.year < other.year
        } else if self.month != other.month {
            self.month < other.month
        } else if self.day != other.day {
            self.day < other.day
        } else if self.hour != other.hour {
            self.hour < other.hour
        } else if self.minute != other.minute {
            self.minute < other.minute
        } else {
            self.second < other.second
        }
    }

    /// Whether two datetimes fall on the same civil date.
    pub open spec fn same_date(self, other: CivilDateTime) -> bool {
        self.year == other.year && self.month == other.month && self.day == other.day
    }

    /// Whether `self` is strictly earlier than `other`.
    pub fn is_before(&self, other: &CivilDateTime) -> (b: bool)
        ensures
            b == self.precedes(*other),
    {
        if self.year != other.year {
            return self.year < other.year;
        }
        if self.month != other.month {
            return self.month < other.month;
        }
        if self.day != other.day {
            return self.day < other.day;
        }
        if self.hour != other.hour {
            return self.hour < other.hour;
        }
        if self.minute != other.minute {
            return self.minute < other.minute;
        }
        self.second < other.second
    }

    /// Whether the fields keep to the ranges of a real datetime.
    pub fn is_valid(&self) -> (b: bool)
        ensures
            b == self.wf(),
    {
        -9999 <= self.year && self.year <= 9999 && 1 <= self.month && self.month <= 12 && 1
            <= self.day && self.day <= month_length(self.year, self.month) && 0 <= self.hour
            && self.hour <= 23 && 0 <= self.minute && self.minute <= 59 && 0 <= self.second
            && self.second <= 59
    }

    /// The date part.
    pub open spec fn date_of(self) -> CivilDate {
        CivilDate { year: self.year, month: self.month, day: self.day }
    }

    /// The date part.
    pub fn date(&self) -> (d: CivilDate)
        ensures
            d == self.date_of(),
    {
        CivilDate { year: self.year, month: self.month, day: self.day }
    }

    /// A datetime is the one its own fields name.
    pub proof fn lemma_civil_of_fields(self)
        ensures
            civil_of(self.fields()) == self,
    {
    }

    /// Whether both fall on the same civil date.
    pub fn on_same_date(&self, other: &CivilDateTime) -> (b: bool)
        ensures
            b == self.same_date(*other),
    {
        self.year == other.year && self.month == other.month && self.day == other.day
    }
}

/// What `jiff::civil::DateTime::strptime("%Y-%m-%d %H:%M", raw)` yields, as
/// its fields; `None` when it reports an error.
pub uninterp spec fn class_time_fields(raw: Seq<char>) -> Option<(int, int, int, int, int, int)>;

/// Whether some datetime `jiff` represents lies at civil second `target`.
pub open spec fn representable_at(target: int) -> bool {
    exists|d: CivilDateTime| d.wf() && local_seconds(d) == target
}

/// The datetime `minutes` minutes after `dt` on the civil time line; `None`
/// when that lies outside the datetimes `jiff` represents.
pub open spec fn minutes_later(dt: CivilDateTime, minutes: int) -> Option<CivilDateTime> {
    let target = local_seconds(dt) + 60 * minutes;
    if representable_at(target) {
        Some(choose|d: CivilDateTime| d.wf() && local_seconds(d) == target)
    } else {
        None
    }
}

/// The widest span, in minutes, `jiff::Span::minutes` accepts.
pub const SPAN_MINUTES_MAX: i64 = 10_518_456_960;

/// `jiff::civil::DateTime::strptime` with the OLE wire format.
///
/// Claims that the result is the one `class_time_fields` names for the text,
/// and that a parsed datetime keeps to the ranges every `DateTime` keeps to.
#[verifier::external_body]
fn strptime_class(raw: &str) -> (r: Option<CivilDateTime>)
    ensures
        r matches Some(dt) ==> class_time_fields(raw@) == Some(dt.fields()) && dt.wf(),
        r is None ==> class_time_fields(raw@) is None,
{
    let d = jiff::civil::DateTime::strptime(CLASS_TIME_FORMAT, raw).ok()?;
    Some(CivilDateTime {
        year: d.year(), month: d.month(), day: d.day(),
        hour: d.hour(), minute: d.minute(), second: d.second(),
    })
}

/// `DateTime::checked_add` of a whole number of minutes, built with
/// `Span::minutes`.
///
/// Claims that a result keeps to the `DateTime` ranges and lies exactly that
/// many minutes later on the civil time line (a span of minutes only is added
/// to the time of day, the whole days it carries then to the date), and that
/// the addition fails only when the sum would leave the datetimes `jiff`
/// represents, as `checked_add` documents.
#[verifier::external_body]
fn add_minutes(dt: &CivilDateTime, minutes: i64) -> (r: Option<CivilDateTime>)
    requires
        dt.wf(),
        -SPAN_MINUTES_MAX <= minutes <= SPAN_MINUTES_MAX,
    ensures
        r matches Some(out) ==> out.wf() && local_seconds(out) == local_seconds(*dt) + 60 * minutes,
        r is None ==> !representable_at(local_seconds(*dt) + 60 * minutes),
{
    let start = jiff::civil::DateTime::new(dt.year, dt.month, dt.day, dt.hour, dt.minute, dt.second, 0)
        .ok()?;
    let d = start.checked_add(jiff::Span::new().minutes(minutes)).ok()?;
    Some(CivilDateTime {
        year: d.year(), month: d.month(), day: d.day(),
        hour: d.hour(), minute: d.minute(), second: d.second(),
    })
}

/// `jiff::civil::Date::tomorrow` of the date part, at the same time of day.
///
/// Claims that the date is the one `next_date` gives, with the time of day
/// kept: `Date::tomorrow` returns the following date of the proleptic
/// Gregorian calendar and fails only on its maximum date, 9999-12-31.
#[verifier::external_body]
fn next_day(dt: &CivilDateTime) -> (r: Option<CivilDateTime>)
    requires
        dt.wf(),
    ensures
        r == next_day_spec(*dt),
{
    let next = jiff::civil::Date::new(dt.year, dt.month, dt.day).ok()?.tomorrow().ok()?;
    Some(CivilDateTime {
        year: next.year(), month: next.month(), day: next.day(),
        hour: dt.hour, minute: dt.minute, second: dt.second,
    })
}

/// Days from 1970-01-01 to the given date of the proleptic Gregorian calendar.
pub open spec fn epoch_day(year: int, month: int, day: int) -> int {
    let y = if month <= 2 {
        year - 1
    } else {
        year
    };
    let m = if month <= 2 {
        month + 9
    } else {
        month - 3
    };
    365 * y + y / 4 - y / 100 + y / 400 + (153 * m + 2) / 5 + day - 1 - 719468
}

/// The civil time read as if it were UTC, in seconds since the Unix epoch.
pub open spec fn local_seconds(dt: CivilDateTime) -> int {
    epoch_day(dt.year as int, dt.month as int, dt.day as int) * 86400 + dt.hour * 3600 + dt.minute
        * 60 + dt.second
}

/// Days from 1970-01-01 to the 1st of March of `year`, less one: the count
/// `epoch_day` is built on.
pub open spec fn march_base(year: int) -> int {
    365 * year + year / 4 - year / 100 + year / 400 - 719468
}

/// A year adds 365 days, and one more in a leap year.
proof fn lemma_march_base_step(year: int)
    ensures
        march_base(year) - march_base(year - 1) == 365 + (if is_leap_year(year) {
            1int
        } else {
            0int
        }),
{
    assert(year / 4 - (year - 1) / 4 == (if year % 4 == 0 {
        1int
    } else {
        0int
    }));
    assert(year / 100 - (year - 1) / 100 == (if year % 100 == 0 {
        1int
    } else {
        0int
    }));
    assert(year / 400 - (year - 1) / 400 == (if year % 400 == 0 {
        1int
    } else {
        0int
    }));
    assert(year % 100 == 0 ==> year % 4 == 0);
    assert(year % 400 == 0 ==> year % 100 == 0);
}

/// Later years start later: at least 365 days per year.
proof fn lemma_march_base_grows(a: int, b: int)
    requires
        a <= b,
    ensures
        march_base(b) - march_base(a) >= 365 * (b - a),
    decreases b - a,
{
    if a < b {
        lemma_march_base_grows(a, b - 1);
        lemma_march_base_step(b);
    }
}

/// A real date's day count lies within its year: from the day after the last
/// of February of the year before, up to the last of February of its own.
proof fn lemma_epoch_day_in_year(y: int, m: int, d: int)
    requires
        1 <= m <= 12,
        1 <= d <= days_in_month(y, m),
    ensures
        march_base(y - 1) + 306 <= epoch_day(y, m, d) <= march_base(y) + 305,
        m < 12 ==> epoch_day(y, m, d) < epoch_day(y, m + 1, 1),
{
    lemma_march_base_step(y);
}

/// Within a year, a later month starts after every day of an earlier one.
proof fn lemma_epoch_day_months(y: int, m: int, d: int, m2: int, d2: int)
    requires
        1 <= m < m2 <= 12,
        1 <= d <= days_in_month(y, m),
        1 <= d2 <= days_in_month(y, m2),
    ensures
        epoch_day(y, m, d) < epoch_day(y, m2, d2),
    decreases m2 - m,
{
    lemma_epoch_day_in_year(y, m, d);
    if m + 1 < m2 {
        lemma_epoch_day_months(y, m + 1, 1, m2, d2);
    }
}

/// Distinct real dates have distinct day counts, in calendar order.
pub proof fn lemma_epoch_day_order(y: int, m: int, d: int, y2: int, m2: int, d2: int)
    requires
        1 <= m <= 12,
        1 <= d <= days_in_month(y, m),
        1 <= m2 <= 12,
        1 <= d2 <= days_in_month(y2, m2),
        y < y2 || (y == y2 && m < m2) || (y == y2 && m == m2 && d < d2),
    ensures
        epoch_day(y, m, d) < epoch_day(y2, m2, d2),
{
    if y < y2 {
        lemma_epoch_day_in_year(y, m, d);
        lemma_epoch_day_in_year(y2, m2, d2);
        lemma_march_base_grows(y, y2 - 1);
    } else if m < m2 {
        lemma_epoch_day_months(y, m, d, m2, d2);
    }
}

/// Two real datetimes at the same civil second are the same datetime.
pub proof fn lemma_local_seconds_injective(a: CivilDateTime, b: CivilDateTime)
    requires
        a.wf(),
        b.wf(),
        local_seconds(a) == local_seconds(b),
    ensures
        a == b,
{
    let ea = epoch_day(a.year as int, a.month as int, a.day as int);
    let eb = epoch_day(b.year as int, b.month as int, b.day as int);
    let ta = a.hour * 3600 + a.minute * 60 + a.second;
    let tb = b.hour * 3600 + b.minute * 60 + b.second;
    assert(0 <= ta < 86400 && 0 <= tb < 86400);
    assert(ea == eb) by {
        if ea < eb {
            assert(ea * 86400 + 86400 <= eb * 86400) by (nonlinear_arith)
                requires
                    ea < eb,
            ;
        } else if eb < ea {
            assert(eb * 86400 + 86400 <= ea * 86400) by (nonlinear_arith)
                requires
                    eb < ea,
            ;
        }
    }
    if a.year != b.year || a.month != b.month || a.day != b.day {
        if a.year < b.year || (a.year == b.year && a.month < b.month) || (a.year == b.year
            && a.month == b.month && a.day < b.day) {
            lemma_epoch_day_order(
                a.year as int,
                a.month as int,
                a.day as int,
                b.year as int,
                b.month as int,
                b.day as int,
            );
        } else {
            lemma_epoch_day_order(
                b.year as int,
                b.month as int,
                b.day as int,
                a.year as int,
                a.month as int,
                a.day as int,
            );
        }
    }
}

/// The largest distance from UTC, in seconds, of a zone offset (`25:59:59`).
pub const MAX_OFFSET_SECS: i64 = 93_599;

/// Whether the instant `ts` is the civil time `dt` placed in a zone: `dt` read
/// as UTC, less an offset no further from UTC than `MAX_OFFSET_SECS`.
pub open spec fn placed_near(dt: CivilDateTime, ts: int) -> bool {
    -MAX_OFFSET_SECS <= local_seconds(dt) - ts <= MAX_OFFSET_SECS
}

/// Whether a civil time lies far enough from the ends of `jiff`'s range to be
/// placed in any zone.
pub open spec fn in_placeable_range(dt: CivilDateTime) -> bool {
    -9998 <= dt.year <= 9998
}

/// `DateTime::to_zoned`: place a civil time in `zone`.
///
/// Claims that a placed time reads back as a valid datetime, and that its
/// instant is the civil time read as UTC less a zone offset: `jiff` computes it
/// as the Unix epoch day times 86400 plus the time of day, minus the offset
/// the zone gives there (the earlier one in a gap or a fold), and every offset
/// lies within `-25:59:59..=25:59:59`. It also claims success away from the
/// ends of the supported range: the zone lookup cannot fail, and `to_zoned`
/// fails only when the instant would leave `Timestamp`'s range, which spans
/// every year from -9998 to 9998 whatever the offset. Which offset applies is
/// not claimed: that depends on the zone's rules, which `jiff` takes from the
/// time zone database, and the zone is opaque here.
#[verifier::external_body]
pub(crate) fn to_zoned(dt: &CivilDateTime, zone: &jiff::tz::TimeZone) -> (r: Option<ZonedTime>)
    requires
        dt.wf(),
    ensures
        r matches Some(z) ==> z.civil.wf() && placed_near(*dt, z.timestamp as int),
        in_placeable_range(*dt) ==> r is Some,
{
    let civil = jiff::civil::DateTime::new(dt.year, dt.month, dt.day, dt.hour, dt.minute, dt.second, 0)
        .ok()?;
    let z = civil.to_zoned(zone.clone()).ok()?;
    let d = z.datetime();
    Some(ZonedTime {
        timestamp: z.timestamp().as_second(),
        civil: CivilDateTime {
            year: d.year(), month: d.month(), day: d.day(),
            hour: d.hour(), minute: d.minute(), second: d.second(),
        },
    })
}

/// The wire format the OLE API uses for class start and end times.
pub const CLASS_TIME_FORMAT: &'static str = "%Y-%m-%d %H:%M";

/// A `HH:MM` wall-clock time of day.
#[derive(Clone, Copy, PartialEq, Eq, Structural, Debug)]
pub struct TimeOfDay {
    hour: u8,
    minute: u8,
}

/// One or two ASCII digits: the hour of an `H:MM` or `HH:MM` time.
pub open spec fn hour_digits(t: Seq<char>) -> bool {
    1 <= t.len() <= 2 && all_digits(t)
}

/// Exactly two ASCII digits: the minute of an `H:MM` or `HH:MM` time.
pub open spec fn minute_digits(t: Seq<char>) -> bool {
    t.len() == 2 && all_digits(t)
}

/// The value `TimeOfDay::parse` reads: the text before any `#`, trimmed, is
/// `H:MM` or `HH:MM` (one or two digits, a colon, two digits, nothing else)
/// naming an hour up to 23 and a minute up to 59.
pub open spec fn time_of_day_spec(raw: Seq<char>) -> Option<(u8, u8)> {
    let value = trim(before_first(raw, '#'));
    match split_once(value, ':') {
        None => None,
        Some((h, m)) => if hour_digits(h) && minute_digits(m) && decimal_value(h) <= 23
            && decimal_value(m) <= 59 {
            Some((decimal_value(h) as u8, decimal_value(m) as u8))
        } else {
            None
        },
    }
}

/// Why `TimeOfDay::parse` rejected its input.
pub open spec fn time_of_day_reason(raw: Seq<char>) -> Seq<char> {
    let value = trim(before_first(raw, '#'));
    match split_once(value, ':') {
        None => "expected HH:MM"@,
        Some((h, m)) => if !hour_digits(h) {
            "bad hour"@
        } else if !minute_digits(m) {
            "bad minute"@
        } else {
            "out of range"@
        },
    }
}

/// The value of `s[from..to]` when it is one digit (`short` allowed) or two
/// digits; `None` otherwise.
fn digits_value(s: &[char], from: usize, to: usize, short: bool) -> (r: Option<u8>)
    requires
        from <= to <= s@.len(),
    ensures
        ({
            let t = s@.subrange(from as int, to as int);
            let shape = (t.len() == 2 || (short && t.len() == 1)) && all_digits(t);
            match r {
                Some(v) => shape && v as int == decimal_value(t) && v <= 99,
                None => !shape,
            }
        }),
{
    let ghost t = s@.subrange(from as int, to as int);
    if to - from == 1 && short {
        let c = s[from];
        if '0' <= c && c <= '9' {
            proof {
                reveal_with_fuel(decimal_value, 2);
                assert(t.drop_last() =~= Seq::<char>::empty());
            }
            Some(((c as u32) - 48) as u8)
        } else {
            assert(!is_digit(t[0]));
            None
        }
    } else if to - from == 2 {
        let c0 = s[from];
        let c1 = s[from + 1];
        if '0' <= c0 && c0 <= '9' && '0' <= c1 && c1 <= '9' {
            proof {
                reveal_with_fuel(decimal_value, 3);
                assert(t.drop_last() =~= seq![c0]);
                assert(seq![c0].drop_last() =~= Seq::<char>::empty());
                assert forall|k: int| 0 <= k < t.len() implies is_digit(#[trigger] t[k]) by {
                    if k == 0 {
                        assert(t[k] == c0);
                    } else {
                        assert(t[k] == c1);
                    }
                }
            }
            Some((((c0 as u32) - 48) * 10 + ((c1 as u32) - 48)) as u8)
        } else {
            if !('0' <= c0 && c0 <= '9') {
                assert(!is_digit(t[0]));
            } else {
                assert(!is_digit(t[1]));
            }
            None
        }
    } else {
        None
    }
}

/// Two-digit, zero-padded decimal text of a value below 100.
pub open spec fn two_digits(n: int) -> Seq<char> {
    seq![(('0' as int) + n / 10) as char, (('0' as int) + n % 10) as char]
}

impl TimeOfDay {
    /// The (hour, minute) pair.
    pub closed spec fn value(self) -> (u8, u8) {
        (self.hour, self.minute)
    }

    /// Every value holds a real time of day.
    #[verifier::type_invariant]
    spec fn in_range(self) -> bool {
        self.hour <= 23 && self.minute <= 59
    }

    /// Parse `H:MM` or `HH:MM`.
    ///
    /// A trailing `#` comment is tolerated because `docker --env-file` keeps
    /// inline comments inside the value.
    pub fn parse(raw: &str) -> (r: Result<TimeOfDay, DomainError>)
        ensures
            r matches Ok(t) ==> time_of_day_spec(raw@) == Some(t.value()),
            r matches Err(e) ==> time_of_day_spec(raw@) is None && e.is_time_of_day(
                raw@,
                time_of_day_reason(raw@),
            ),
    {
        let s = chars_of(raw);
        let len = s.len();
        assert(s@.subrange(0, len as int) =~= s@);
        let cut = match find_char_range(&s, '#', 0, len) {
            Some(k) => k,
            None => len,
        };
        assert(before_first(s@, '#') =~= s@.subrange(0, cut as int));
        let (a, b) = trim_range(&s, 0, cut);
        let ghost value = s@.subrange(a as int, b as int);
        let colon = match find_char_range(&s, ':', a, b) {
            Some(k) => k,
            None => {
                return Err(DomainError::time_of_day(raw, "expected HH:MM"));
            },
        };
        assert(value.take(colon - a) =~= s@.subrange(a as int, colon as int));
        assert(value.skip(colon - a + 1) =~= s@.subrange(colon + 1, b as int));
        let hour = match digits_value(&s, a, colon, true) {
            Some(h) => h,
            None => {
                return Err(DomainError::time_of_day(raw, "bad hour"));
            },
        };
        let minute = match digits_value(&s, colon + 1, b, false) {
            Some(m) => m,
            None => {
                return Err(DomainError::time_of_day(raw, "bad minute"));
            },
        };
        if hour > 23 || minute > 59 {
            return Err(DomainError::time_of_day(raw, "out of range"));
        }
        Ok(TimeOfDay { hour, minute })
    }

    /// Hour component, 0-23.
    pub fn hour(&self) -> (h: u8)
        ensures
            h == self.value().0,
            h <= 23,
    {
        proof {
            use_type_invariant(self);
        }
        self.hour
    }

    /// Minute component, 0-59.
    pub fn minute(&self) -> (m: u8)
        ensures
            m == self.value().1,
            m <= 59,
    {
        proof {
            use_type_invariant(self);
        }
        self.minute
    }

    /// The `HH:MM` rendering, zero-padded.
    ///
    /// Parsing the text gives the same time of day back.
    pub fn to_text(&self) -> (r: String)
        ensures
            r@ == time_text(self.value()),
            time_of_day_spec(r@) == Some(self.value()),
    {
        proof {
            use_type_invariant(self);
            lemma_time_of_day_round_trip(self.value());
        }
        let mut r = String::new();
        push_two_digits(&mut r, self.hour);
        push_char(&mut r, ':');
        push_two_digits(&mut r, self.minute);
        r
    }
}

/// Append the two-digit, zero-padded rendering of `n`.
pub fn push_two_digits(s: &mut String, n: u8)
    requires
        n < 100,
    ensures
        final(s)@ == old(s)@ + two_digits(n as int),
{
    let tens = ((n / 10) + 48) as char;
    let ones = ((n % 10) + 48) as char;
    push_char(s, tens);
    push_char(s, ones);
}

/// Parse the OLE `YYYY-MM-DD HH:MM` form as civil (wall-clock) time.
pub fn parse_class_time(raw: &str) -> (r: Result<CivilDateTime, DomainError>)
    ensures
        r matches Ok(dt) ==> class_time_fields(raw@) == Some(dt.fields()) && dt.wf(),
        r matches Err(e) ==> class_time_fields(raw@) is None && e.is_timestamp(raw@),
{
    match strptime_class(raw) {
        Some(dt) => Ok(dt),
        None => Err(DomainError::timestamp(raw)),
    }
}

/// The fallback class length in whole minutes.
pub fn duration_span(duration_secs: u64) -> (m: i64)
    ensures
        m == duration_secs / 60,
{
    (duration_secs / 60) as i64
}

/// End time to use when the API supplied none.
///
/// Falls back to the start time if the addition overflows the representable
/// date range, so an absurd configured duration cannot abort the poll.
pub fn fallback_end(starts_at: CivilDateTime, duration_secs: u64) -> (r: CivilDateTime)
    requires
        starts_at.wf(),
        duration_secs / 60 <= SPAN_MINUTES_MAX,
    ensures
        r.wf(),
        r == fallback_end_spec(starts_at, duration_secs),
{
    let minutes = duration_span(duration_secs);
    let ghost target = local_seconds(starts_at) + 60 * minutes;
    match add_minutes(&starts_at, minutes) {
        Some(end) => {
            proof {
                let d = choose|d: CivilDateTime| d.wf() && local_seconds(d) == target;
                lemma_local_seconds_injective(d, end);
            }
            end
        },
        None => starts_at,
    }
}

/// The effective end of a class, resolved into a zoned instant.
///
/// The civil time placed in `zone` is the supplied end, or the fallback end
/// computed from the start; `None` when that time cannot be placed, which
/// happens only near the ends of `jiff`'s range.
pub fn class_end(
    starts_at: CivilDateTime,
    ends_at: Option<CivilDateTime>,
    fallback_secs: u64,
    zone: &jiff::tz::TimeZone,
) -> (r: Option<ZonedTime>)
    requires
        starts_at.wf(),
        ends_at matches Some(e) ==> e.wf(),
        ends_at is None ==> fallback_secs / 60 <= SPAN_MINUTES_MAX,
    ensures
        r matches Some(z) ==> z.civil.wf() && placed_near(
            effective_end_spec(starts_at, ends_at, fallback_secs),
            z.timestamp as int,
        ),
        in_placeable_range(effective_end_spec(starts_at, ends_at, fallback_secs)) ==> r is Some,
{
    let end = effective_end(starts_at, ends_at, fallback_secs);
    to_zoned(&end, zone)
}

/// The civil end of a class: the supplied end, or the fallback end.
pub open spec fn effective_end_spec(
    starts_at: CivilDateTime,
    ends_at: Option<CivilDateTime>,
    fallback_secs: u64,
) -> CivilDateTime {
    match ends_at {
        Some(e) => e,
        None => fallback_end_spec(starts_at, fallback_secs),
    }
}

/// The civil end of a class: the supplied end, or the fallback end computed
/// from the start.
pub fn effective_end(starts_at: CivilDateTime, ends_at: Option<CivilDateTime>, fallback_secs: u64) -> (r:
    CivilDateTime)
    requires
        starts_at.wf(),
        ends_at matches Some(e) ==> e.wf(),
        ends_at is None ==> fallback_secs / 60 <= SPAN_MINUTES_MAX,
    ensures
        r.wf(),
        ends_at matches Some(e) ==> r == e,
        ends_at is None ==> r == fallback_end_spec(starts_at, fallback_secs),
{
    match ends_at {
        Some(e) => e,
        None => fallback_end(starts_at, fallback_secs),
    }
}

/// The end `fallback_end` computes: the start plus the whole minutes of the
/// duration, or the start itself when that overflows.
pub open spec fn fallback_end_spec(starts_at: CivilDateTime, duration_secs: u64) -> CivilDateTime {
    match minutes_later(starts_at, (duration_secs / 60) as int) {
        Some(d) => d,
        None => starts_at,
    }
}

/// A difference of two `i64` values as `i64::saturating_sub` gives it.
pub open spec fn saturating_diff(a: int, b: int) -> int {
    if a - b > i64::MAX {
        i64::MAX as int
    } else if a - b < i64::MIN {
        i64::MIN as int
    } else {
        a - b
    }
}

/// Whole minutes from `now` until `target`, saturating at zero.
pub open spec fn minutes_until_spec(target: int, now: int) -> int {
    if saturating_diff(target, now) <= 0 {
        0
    } else {
        saturating_diff(target, now) / 60
    }
}

/// Whole minutes from `now` until `target` (seconds since the epoch),
/// saturating at zero.
pub fn minutes_until(target: i64, now: i64) -> (m: i64)
    ensures
        m == minutes_until_spec(target as int, now as int),
        m >= 0,
{
    let d = (target as i128) - (now as i128);
    if d <= 0 {
        0
    } else if d > 0x7fff_ffff_ffff_ffff {
        0x7fff_ffff_ffff_ffff / 60
    } else {
        (d / 60) as i64
    }
}

/// Seconds to wait given the candidate instants of today's and tomorrow's
/// occurrence: today's when it is still ahead, else tomorrow's when there is
/// one, else today's; never less than one second.
pub open spec fn next_wait_spec(now: int, today: Option<int>, tomorrow: Option<int>) -> int {
    let target = match today {
        Some(t) if t > now => Some(t),
        _ => match tomorrow {
            Some(n) => Some(n),
            None => today,
        },
    };
    match target {
        None => 1,
        Some(t) => if t - now < 1 {
            1
        } else {
            t - now
        },
    }
}

/// The wait `next_wait` returns: [`next_wait_spec`], capped at `i64::MAX`.
pub open spec fn wait_secs(now: int, today: Option<int>, tomorrow: Option<int>) -> int {
    if next_wait_spec(now, today, tomorrow) > i64::MAX {
        i64::MAX as int
    } else {
        next_wait_spec(now, today, tomorrow)
    }
}

/// Seconds from `now` until the chosen occurrence; see [`next_wait_spec`].
pub fn next_wait(now: i64, today: Option<i64>, tomorrow: Option<i64>) -> (w: i64)
    ensures
        w as int == wait_secs(now as int, opt_int(today), opt_int(tomorrow)),
        w >= 1,
{
    let target = match today {
        Some(t) if t > now => Some(t),
        _ => match tomorrow {
            Some(n) => Some(n),
            None => today,
        },
    };
    match target {
        None => 1,
        Some(t) => {
            let d = (t as i128) - (now as i128);
            if d < 1 {
                1
            } else if d > 0x7fff_ffff_ffff_ffff {
                0x7fff_ffff_ffff_ffff
            } else {
                d as i64
            }
        },
    }
}

/// An optional machine integer as a mathematical one.
pub open spec fn opt_int(o: Option<i64>) -> Option<int> {
    match o {
        Some(v) => Some(v as int),
        None => None,
    }
}

/// `at` on the date that `now` shows, at second zero.
pub open spec fn occurrence_on(at: TimeOfDay, now: CivilDateTime) -> CivilDateTime {
    CivilDateTime {
        year: now.year,
        month: now.month,
        day: now.day,
        hour: at.value().0 as i8,
        minute: at.value().1 as i8,
        second: 0,
    }
}

/// The same time of day on the next date; `None` when there is no next date.
pub open spec fn next_day_spec(dt: CivilDateTime) -> Option<CivilDateTime> {
    match next_date(dt.year as int, dt.month as int, dt.day as int) {
        Some(d) => Some(
            CivilDateTime {
                year: d.0 as i16,
                month: d.1 as i8,
                day: d.2 as i8,
                hour: dt.hour,
                minute: dt.minute,
                second: dt.second,
            },
        ),
        None => None,
    }
}

/// An instant that may be missing: when there is one, it is the civil time
/// `dt` placed in a zone.
pub open spec fn maybe_placed(dt: Option<CivilDateTime>, ts: Option<int>) -> bool {
    match ts {
        None => true,
        Some(t) => dt matches Some(d) && placed_near(d, t),
    }
}

/// Whether tomorrow's occurrence is looked for: today's could not be placed,
/// or it is not ahead of `now`.
pub open spec fn needs_tomorrow(today: Option<int>, now: int) -> bool {
    match today {
        Some(t) => t <= now,
        None => true,
    }
}

/// The waits `seconds_until` can return: [`wait_secs`] for a placement of
/// today's occurrence and one of tomorrow's. Either placement may be missing,
/// but today's is there whenever today's occurrence lies in the placeable
/// range, and tomorrow's whenever it is looked for and lies in that range.
pub open spec fn wait_until_occurrence(at: TimeOfDay, now: ZonedTime, w: int) -> bool {
    let today_at = occurrence_on(at, now.civil);
    let tomorrow_at = next_day_spec(today_at);
    exists|today: Option<int>, tomorrow: Option<int>|
        #![trigger wait_secs(now.timestamp as int, today, tomorrow)]
        {
            &&& maybe_placed(Some(today_at), today)
            &&& maybe_placed(tomorrow_at, tomorrow)
            &&& in_placeable_range(today_at) ==> today is Some
            &&& needs_tomorrow(today, now.timestamp as int) ==> (tomorrow_at matches Some(n)
                ==> (in_placeable_range(n) ==> tomorrow is Some))
            &&& w == wait_secs(now.timestamp as int, today, tomorrow)
        }
}

/// The next date of a real datetime is real too, and no earlier in years.
pub proof fn lemma_next_day_wf(dt: CivilDateTime)
    requires
        dt.wf(),
    ensures
        next_day_spec(dt) matches Some(n) ==> n.wf() && dt.year <= n.year <= dt.year + 1,
{
}

/// Seconds from `now` until the next occurrence of `at` in `zone`.
///
/// When `at` has already passed today the next day's occurrence is used, so the
/// result is always positive and the caller cannot spin.
pub fn seconds_until(at: TimeOfDay, now: &ZonedTime, zone: &jiff::tz::TimeZone) -> (w: i64)
    requires
        now.civil.wf(),
    ensures
        w >= 1,
        wait_until_occurrence(at, *now, w as int),
{
    proof {
        use_type_invariant(&at);
    }
    let today_at = CivilDateTime {
        year: now.civil.year,
        month: now.civil.month,
        day: now.civil.day,
        hour: at.hour as i8,
        minute: at.minute as i8,
        second: 0,
    };
    let today = match to_zoned(&today_at, zone) {
        Some(z) => Some(z.timestamp),
        None => None,
    };
    let look_tomorrow = match today {
        Some(t) => t <= now.timestamp,
        None => true,
    };
    let tomorrow = if look_tomorrow {
        proof {
            lemma_next_day_wf(today_at);
        }
        match next_day(&today_at) {
            Some(next) => match to_zoned(&next, zone) {
                Some(z) => Some(z.timestamp),
                None => None,
            },
            None => None,
        }
    } else {
        None
    };
    let w = next_wait(now.timestamp, today, tomorrow);
    proof {
        assert(maybe_placed(Some(occurrence_on(at, now.civil)), opt_int(today)));
        assert(maybe_placed(next_day_spec(occurrence_on(at, now.civil)), opt_int(tomorrow)));
        assert(look_tomorrow == needs_tomorrow(opt_int(today), now.timestamp as int));
        assert(w == wait_secs(now.timestamp as int, opt_int(today), opt_int(tomorrow)));
    }
    w
}

/// Waiting period, in seconds, before the next occurrence of `at`.
pub fn duration_until_next(at: TimeOfDay, now: &ZonedTime, zone: &jiff::tz::TimeZone) -> (w: u64)
    requires
        now.civil.wf(),
    ensures
        w >= 1,
        wait_until_occurrence(at, *now, w as int),
{
    seconds_until(at, now, zone) as u64
}

/// The text `TimeOfDay` renders for an (hour, minute) pair: `HH:MM`.
pub open spec fn time_text(v: (u8, u8)) -> Seq<char> {
    two_digits(v.0 as int) + seq![':'] + two_digits(v.1 as int)
}

/// Two digits of a value below 100 are digits, and read back as the value.
pub proof fn lemma_two_digits(n: int)
    requires
        0 <= n < 100,
    ensures
        two_digits(n).len() == 2,
        is_digit(two_digits(n)[0]),
        is_digit(two_digits(n)[1]),
        !is_ws(two_digits(n)[0]),
        !is_ws(two_digits(n)[1]),
        all_digits(two_digits(n)),
        decimal_value(two_digits(n)) == n,
{
    let t = two_digits(n);
    reveal_with_fuel(decimal_value, 3);
    assert(t.drop_last() =~= seq![t[0]]);
    assert(seq![t[0]].drop_last() =~= Seq::<char>::empty());
}

/// Rendering a time of day and parsing the text gives the same time back.
pub proof fn lemma_time_of_day_round_trip(v: (u8, u8))
    requires
        v.0 <= 23,
        v.1 <= 59,
    ensures
        time_of_day_spec(time_text(v)) == Some(v),
{
    let s = time_text(v);
    let h = two_digits(v.0 as int);
    let m = two_digits(v.1 as int);
    lemma_two_digits(v.0 as int);
    lemma_two_digits(v.1 as int);
    assert(s.len() == 5);
    assert(s[0] == h[0] && s[1] == h[1] && s[2] == ':' && s[3] == m[0] && s[4] == m[1]);
    lemma_find_char_unique(s, '#', None);
    assert(before_first(s, '#') == s);
    lemma_ws_prefix_unique(s, 0);
    assert(trim_start(s) =~= s);
    lemma_ws_suffix_unique(s, 0);
    assert(trim_end(s) =~= s);
    assert(trim(before_first(s, '#')) == s);
    lemma_find_char_unique(s, ':', Some(2));
    assert(s.take(2) =~= h);
    assert(s.skip(3) =~= m);
}

} // verus!
