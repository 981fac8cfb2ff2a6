//! Times of day and dates in the reader's own time zone.
//!
//! Only the zone's offset depends on the machine. What a time reads at a given
//! offset is settled by the calendar.

use vstd::prelude::*;

use crate::text;

verus! {

/// Hours and minutes.
pub const CLOCK: &'static str = "%H:%M";

/// A day, as `2026-09-04`.
pub const DAY: &'static str = "%Y-%m-%d";

/// A time and a day, as `09:05 · Sep  4, 2026`.
pub const STAMP: &'static str = "%H:%M · %b %e, %Y";

// ---------------------------------------------------------------------------
// The calendar.
// ---------------------------------------------------------------------------
/// Whether the year has a leap day.
pub open spec fn leap(y: int) -> bool {
    y % 4 == 0 && (y % 100 != 0 || y % 400 == 0)
}

/// How many days the month has.
pub open spec fn month_days(y: int, m: int) -> int {
    if m == 2 {
        if leap(y) {
            29
        } else {
            28
        }
    } else if m == 4 || m == 6 || m == 9 || m == 11 {
        30
    } else {
        31
    }
}

/// How many days of the year lie before the month.
pub open spec fn days_before_month(y: int, m: int) -> int
    decreases m,
{
    if m <= 1 {
        0
    } else {
        days_before_month(y, m - 1) + month_days(y, m - 1)
    }
}

/// How many days lie between the first day of the year 1 and that of the year.
pub open spec fn days_before_year(y: int) -> int {
    365 * (y - 1) + (y - 1) / 4 - (y - 1) / 100 + (y - 1) / 400
}

/// A day of the Gregorian calendar.
pub struct Date {
    pub year: int,
    pub month: int,
    pub day: int,
}

/// Whether there is such a day.
pub open spec fn exists_day(d: Date) -> bool {
    1 <= d.month <= 12 && 1 <= d.day <= month_days(d.year, d.month)
}

/// The number of the day, counted from 1 January 1970.
pub open spec fn day_number(d: Date) -> int {
    days_before_year(d.year) - 719162 + days_before_month(d.year, d.month) + d.day - 1
}

/// A number with at least so many digits.
pub open spec fn padded(n: nat, width: nat) -> Seq<char> {
    let s = text::decimal(n);
    if s.len() < width {
        Seq::new((width - s.len()) as nat, |i: int| '0') + s
    } else {
        s
    }
}

/// A year: four digits, and a sign in front of those that need more or come
/// before the year 0.
pub open spec fn year_text(y: int) -> Seq<char> {
    if 0 <= y <= 9999 {
        padded(y as nat, 4)
    } else if y < 0 {
        seq!['-'] + padded((-y) as nat, 4)
    } else {
        seq!['+'] + padded(y as nat, 4)
    }
}

/// A month's short name.
pub open spec fn month_name(m: int) -> Seq<char> {
    if m == 1 {
        "Jan"@
    } else if m == 2 {
        "Feb"@
    } else if m == 3 {
        "Mar"@
    } else if m == 4 {
        "Apr"@
    } else if m == 5 {
        "May"@
    } else if m == 6 {
        "Jun"@
    } else if m == 7 {
        "Jul"@
    } else if m == 8 {
        "Aug"@
    } else if m == 9 {
        "Sep"@
    } else if m == 10 {
        "Oct"@
    } else if m == 11 {
        "Nov"@
    } else {
        "Dec"@
    }
}

/// What a clock shows `t` seconds after the start of 1970.
pub open spec fn clock_text(t: int) -> Seq<char> {
    padded(((t % 86400) / 3600) as nat, 2) + ":"@ + padded(((t % 3600) / 60) as nat, 2)
}

/// What a calendar shows on a day.
pub open spec fn day_text(d: Date) -> Seq<char> {
    year_text(d.year) + "-"@ + padded(d.month as nat, 2) + "-"@ + padded(d.day as nat, 2)
}

/// A time and a day.
pub open spec fn stamp_text(t: int, d: Date) -> Seq<char> {
    clock_text(t) + " · "@ + month_name(d.month) + (if d.day < 10 {
        "  "@
    } else {
        " "@
    }) + text::decimal(d.day as nat) + ", "@ + year_text(d.year)
}

/// Whether the day is the one on which `t` falls.
pub open spec fn falls_on(t: int, d: Date) -> bool {
    exists_day(d) && day_number(d) == t / 86400
}

/// Whether this is how the day of `t` reads.
pub open spec fn is_day_text(s: Seq<char>, t: int) -> bool {
    exists|d: Date| #[trigger] falls_on(t, d) && s == day_text(d)
}

/// Whether this is how `t` reads with its day.
pub open spec fn is_stamp_text(s: Seq<char>, t: int) -> bool {
    exists|d: Date| #[trigger] falls_on(t, d) && s == stamp_text(t, d)
}

/// Whether the time lies in the years 1 to 9999.
pub open spec fn in_calendar(secs: int) -> bool {
    -62135596800 <= secs <= 253402300799
}

/// Whether a zone can be off by so much: less than a day.
pub open spec fn is_offset(offset: int) -> bool {
    -86400 < offset < 86400
}

// ---------------------------------------------------------------------------
// The zone, and how a time reads in it.
// ---------------------------------------------------------------------------
/// `chrono::Local.timestamp_opt`, and the offset of the local time from UTC in
/// seconds. There is none where the time is out of the range that `chrono`
/// covers, which is far wider than the years 1 to 9999. The offset itself is
/// the machine's: it is less than a day, and nothing else is claimed of it.
#[verifier::external_body]
pub(crate) fn local_offset(secs: i64) -> (r: Option<i32>)
    ensures
        in_calendar(secs as int) ==> r is Some,
        r matches Some(offset) ==> is_offset(offset as int),
{
    let at = chrono::TimeZone::timestamp_opt(&chrono::Local, secs, 0).single()?;
    Some(at.offset().local_minus_utc())
}

/// `chrono::DateTime::format`, on a time at a fixed offset from UTC. The
/// pattern's `%H`, `%M`, `%m` and `%d` are two digits, `%Y` is the year with at
/// least four, `%b` the English short name of the month, and `%e` the day in
/// two columns. There is no text where the offset is a day or more, or where
/// the time is out of the range that `chrono` covers. Another pattern could
/// make the formatting fail.
#[verifier::external_body]
pub(crate) fn format_at(secs: i64, offset: i32, pattern: &str) -> (r: Option<String>)
    requires
        pattern@ == CLOCK@ || pattern@ == DAY@ || pattern@ == STAMP@,
    ensures
        in_calendar(secs as int) && is_offset(offset as int) ==> r is Some,
        pattern@ == CLOCK@ ==> (r matches Some(s) ==> s@ == clock_text(secs + offset)),
        pattern@ == DAY@ ==> (r matches Some(s) ==> is_day_text(s@, secs + offset)),
        pattern@ == STAMP@ ==> (r matches Some(s) ==> is_stamp_text(s@, secs + offset)),
{
    let zone = chrono::FixedOffset::east_opt(offset)?;
    let at = chrono::TimeZone::timestamp_opt(&zone, secs, 0).single()?;
    Some(at.format(pattern).to_string())
}

// ---------------------------------------------------------------------------
// Milliseconds.
// ---------------------------------------------------------------------------
/// The second in which a millisecond falls. The count is taken as a signed
/// one.
pub open spec fn second_of(ms: u64) -> int {
    (if ms <= i64::MAX {
        ms as int
    } else {
        ms - 0x1_0000_0000_0000_0000
    }) / 1000
}

/// The second in which a millisecond falls.
pub fn whole_seconds(ms: u64) -> (r: i64)
    ensures
        r == second_of(ms),
{
    if ms <= i64::MAX as u64 {
        (ms / 1000) as i64
    } else {
        // Counted from the top, so that the quotient rounds down.
        let below: u64 = u64::MAX - ms;
        let back: u64 = below / 1000;
        proof {
            assert((ms - 0x1_0000_0000_0000_0000) / 1000 == -1 - back) by {
                let n = below as int;
                assert(ms - 0x1_0000_0000_0000_0000 == -1 - n);
                assert(n == 1000 * (n / 1000) + n % 1000);
                assert(-1 - n == 1000 * (-1 - n / 1000) + (999 - n % 1000));
            }
        }
        -1 - (back as i64)
    }
}

// ---------------------------------------------------------------------------
// Labels.
// ---------------------------------------------------------------------------
/// Whether this is the time of day of a message, at an offset: empty where
/// none is known.
pub open spec fn is_clock_label(s: Seq<char>, ms: u64, offset: Option<i32>) -> bool {
    match offset {
        Some(o) => s == clock_text(second_of(ms) + o) || (s.len() == 0 && !(in_calendar(
            second_of(ms),
        ) && is_offset(o as int))),
        None => s.len() == 0,
    }
}

/// The time of day of a message, at an offset.
pub fn clock_label(ms: u64, offset: Option<i32>) -> (r: String)
    ensures
        is_clock_label(r@, ms, offset),
{
    proof {
        reveal_strlit("");
    }
    let shown = match offset {
        Some(o) => format_at(whole_seconds(ms), o, CLOCK),
        None => None,
    };
    match shown {
        Some(s) => s,
        None => "".to_owned(),
    }
}

/// Whether this is the day of a message, at an offset: none where none is
/// known.
pub open spec fn is_local_day(day: Option<String>, ms: u64, offset: Option<i32>) -> bool {
    match (day, offset) {
        (Some(s), Some(o)) => is_day_text(s@, second_of(ms) + o),
        (Some(_), None) => false,
        (None, Some(o)) => !(in_calendar(second_of(ms)) && is_offset(o as int)),
        (None, None) => true,
    }
}

/// The day of a message, at an offset.
pub fn local_day(ms: u64, offset: Option<i32>) -> (r: Option<String>)
    ensures
        is_local_day(r, ms, offset),
{
    match offset {
        Some(o) => format_at(whole_seconds(ms), o, DAY),
        None => None,
    }
}

/// Whether this is the time of a post, at an offset: empty where none is
/// known.
pub open spec fn is_stamp_label(s: Seq<char>, secs: i64, offset: Option<i32>) -> bool {
    match offset {
        Some(o) => is_stamp_text(s, secs + o) || (s.len() == 0 && !(in_calendar(secs as int)
            && is_offset(o as int))),
        None => s.len() == 0,
    }
}

/// The time of a post, at an offset.
pub fn stamp_label(secs: i64, offset: Option<i32>) -> (r: String)
    ensures
        is_stamp_label(r@, secs, offset),
{
    proof {
        reveal_strlit("");
    }
    let shown = match offset {
        Some(o) => format_at(secs, o, STAMP),
        None => None,
    };
    match shown {
        Some(s) => s,
        None => "".to_owned(),
    }
}

/// The offset of the reader's time zone when a message was sent.
pub fn offset_at_millis(ms: u64) -> (r: Option<i32>)
    ensures
        in_calendar(second_of(ms)) ==> r is Some,
        r matches Some(offset) ==> is_offset(offset as int),
{
    local_offset(whole_seconds(ms))
}

/// The offset of the reader's time zone when a post was made.
pub fn offset_at(secs: i64) -> (r: Option<i32>)
    ensures
        in_calendar(secs as int) ==> r is Some,
        r matches Some(offset) ==> is_offset(offset as int),
{
    local_offset(secs)
}

/// The time of day of a message in the reader's own time zone.
pub fn format_timestamp(timestamp_ms: u64) -> (r: String)
    ensures
        exists|offset: Option<i32>|
            {
                &&& #[trigger] is_clock_label(r@, timestamp_ms, offset)
                &&& in_calendar(second_of(timestamp_ms)) ==> offset is Some
                &&& offset matches Some(o) ==> is_offset(o as int)
            },
{
    let offset = offset_at_millis(timestamp_ms);
    let r = clock_label(timestamp_ms, offset);
    assert(is_clock_label(r@, timestamp_ms, offset));
    r
}

/// The time of a post in the reader's own time zone.
pub fn tweet_time(timestamp_secs: i64) -> (r: String)
    ensures
        exists|offset: Option<i32>|
            {
                &&& #[trigger] is_stamp_label(r@, timestamp_secs, offset)
                &&& in_calendar(timestamp_secs as int) ==> offset is Some
                &&& offset matches Some(o) ==> is_offset(o as int)
            },
{
    let offset = offset_at(timestamp_secs);
    let r = stamp_label(timestamp_secs, offset);
    assert(is_stamp_label(r@, timestamp_secs, offset));
    r
}

// ---------------------------------------------------------------------------
// Laws.
// ---------------------------------------------------------------------------
/// A day does not move by more than one, whatever the zone: a message sent on
/// some day of UTC is filed under that day or a neighbour of it.
pub proof fn law_days_are_off_by_one_at_most(secs: int, offset: int, d: Date)
    requires
        is_offset(offset),
        falls_on(secs + offset, d),
    ensures
        secs / 86400 - 1 <= day_number(d) <= secs / 86400 + 1,
{
}

/// Days of later years have greater numbers, so a day reads in one way only.
pub proof fn law_a_time_falls_on_one_day(t: int, a: Date, b: Date)
    requires
        falls_on(t, a),
        falls_on(t, b),
    ensures
        a == b,
{
    lemma_day_of_year(a);
    lemma_day_of_year(b);
    if a.year < b.year {
        lemma_years_grow(a.year, b.year);
    } else if b.year < a.year {
        lemma_years_grow(b.year, a.year);
    } else if a.month < b.month {
        lemma_months_grow(a.year, a.month, b.month);
    } else if b.month < a.month {
        lemma_months_grow(a.year, b.month, a.month);
    }
}

/// How many days the year has.
spec fn year_days(y: int) -> int {
    if leap(y) {
        366
    } else {
        365
    }
}

/// A year is followed by the next one after its days.
proof fn lemma_year_step(y: int)
    ensures
        days_before_year(y + 1) == days_before_year(y) + year_days(y),
{
    let p = y - 1;
    assert((p + 1) / 4 == p / 4 + if (p + 1) % 4 == 0 {
        1int
    } else {
        0int
    });
    assert((p + 1) / 100 == p / 100 + if (p + 1) % 100 == 0 {
        1int
    } else {
        0int
    });
    assert((p + 1) / 400 == p / 400 + if (p + 1) % 400 == 0 {
        1int
    } else {
        0int
    });
    assert(y % 400 == 0 ==> y % 100 == 0);
    assert(y % 100 == 0 ==> y % 4 == 0);
}

/// Later years begin after the end of earlier ones.
proof fn lemma_years_grow(a: int, b: int)
    requires
        a < b,
    ensures
        days_before_year(a) + year_days(a) <= days_before_year(b),
    decreases b - a,
{
    lemma_year_step(a);
    if a + 1 < b {
        lemma_years_grow(a + 1, b);
    }
}

/// Later months begin after the end of earlier ones.
proof fn lemma_months_grow(y: int, a: int, b: int)
    requires
        1 <= a < b <= 13,
    ensures
        days_before_month(y, a) + month_days(y, a) <= days_before_month(y, b),
    decreases b - a,
{
    if a + 1 < b {
        lemma_months_grow(y, a, b - 1);
    }
}

/// A day lies within its year.
proof fn lemma_day_of_year(d: Date)
    requires
        exists_day(d),
    ensures
        0 <= days_before_month(d.year, d.month) + d.day - 1 < year_days(d.year),
{
    reveal_with_fuel(days_before_month, 14);
    if d.month < 13 {
        lemma_months_grow(d.year, d.month, 13);
    }
    assert(days_before_month(d.year, 13) == year_days(d.year));
}

/// A time of day reads as its hour and its minute, two digits each.
pub proof fn law_a_time_reads_as_hour_and_minute(day: int, h: int, m: int, s: int)
    requires
        0 <= h < 24,
        0 <= m < 60,
        0 <= s < 60,
    ensures
        clock_text(86400 * day + 3600 * h + 60 * m + s) == padded(h as nat, 2) + ":"@ + padded(
            m as nat,
            2,
        ),
{
    let t = 86400 * day + 3600 * h + 60 * m + s;
    let r = 3600 * h + 60 * m + s;
    assert(t % 86400 == r) by (nonlinear_arith)
        requires
            t == 86400 * day + r,
            0 <= r < 86400,
    ;
    assert(r / 3600 == h) by (nonlinear_arith)
        requires
            r == 3600 * h + (60 * m + s),
            0 <= 60 * m + s < 3600,
    ;
    assert(t % 3600 == 60 * m + s) by (nonlinear_arith)
        requires
            t == 3600 * (24 * day + h) + (60 * m + s),
            0 <= 60 * m + s < 3600,
    ;
    assert((60 * m + s) / 60 == m) by (nonlinear_arith)
        requires
            0 <= s < 60,
    ;
}

/// A message shows the time at the reader's offset, and none where there is
/// none.
pub proof fn law_a_message_shows_local_time(
    label: Seq<char>,
    ms: u64,
    offset: Option<i32>,
)
    requires
        is_clock_label(label, ms, offset),
        ms <= i64::MAX,
        in_calendar(ms as int / 1000),
    ensures
        offset is None ==> label.len() == 0,
        offset matches Some(o) ==> is_offset(o as int) ==> label == clock_text(
            ms as int / 1000 + o,
        ),
{
}

} // verus!
