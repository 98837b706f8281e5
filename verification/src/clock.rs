//! Points in time: nanoseconds since 1970 UTC, and how they are written and read.
use vstd::prelude::*;

use crate::text::fixed_dec;

verus! {

/// Nanoseconds in a day.
pub const DAY_NS: i64 = 86_400_000_000_000;

/// Hours, minutes and seconds of the day, two digits each, with `sep` between them.
pub open spec fn day_time(ns: int, sep: Seq<char>) -> Seq<char> {
    let s = ns / 1_000_000_000;
    fixed_dec(s / 3600 % 24, 2) + sep + fixed_dec(s / 60 % 60, 2) + sep + fixed_dec(s % 60, 2)
}

/// The time of day to the millisecond, as in `07:05:09.042`.
pub open spec fn clock(ns: int) -> Seq<char> {
    day_time(ns, seq![':']) + seq!['.'] + fixed_dec(ns / 1_000_000 % 1000, 3)
}

/// A date of the Gregorian calendar.
pub struct Date {
    pub year: int,
    pub month: int,
    pub day: int,
}

/// The date of a day, counted from 1970-01-01. Years are taken to begin in March, so that the leap
/// day comes last in its year; a cycle of 400 years has 146097 days.
pub open spec fn date_of(day: int) -> Date {
    let from_march_0 = day + 719_468;
    let cycle = from_march_0 / 146_097;
    let in_cycle = from_march_0 % 146_097;
    let year = (in_cycle - in_cycle / 1460 + in_cycle / 36_524 - in_cycle / 146_096) / 365;
    let in_year = in_cycle - (365 * year + year / 4 - year / 100);
    let month = (5 * in_year + 2) / 153;
    Date {
        year: 400 * cycle + year + (if month < 10 {
            0int
        } else {
            1
        }),
        month: if month < 10 {
            month + 3
        } else {
            month - 9
        },
        day: in_year - (153 * month + 2) / 5 + 1,
    }
}

/// A date with `sep` between its parts, as in `2026-01-15`.
pub open spec fn date_text(d: Date, sep: Seq<char>) -> Seq<char> {
    fixed_dec(d.year, 4) + sep + fixed_dec(d.month, 2) + sep + fixed_dec(d.day, 2)
}

/// Date and time in UTC to the millisecond, as in `2026-01-15T07:05:09.042Z`.
pub open spec fn iso(ns: int) -> Seq<char> {
    date_text(date_of(ns / DAY_NS as int), seq!['-']) + seq!['T'] + clock(ns) + seq!['Z']
}

/// Date and time to the second for a file name, as in `20260115_070509`.
pub open spec fn stamp(ns: int) -> Seq<char> {
    date_text(date_of(ns / DAY_NS as int), Seq::empty()) + seq!['_'] + day_time(ns, Seq::empty())
}

/// `DateTime::format` of chrono with `%H:%M:%S%.3f`: the time of day in UTC. Digits below the
/// millisecond are cut off.
#[verifier::external_body]
pub(crate) fn clock_text(ns: i64) -> (r: String)
    ensures
        r@ == clock(ns as int),
{
    chrono::DateTime::from_timestamp_nanos(ns).format("%H:%M:%S%.3f").to_string()
}

/// `DateTime::format` of chrono with `%Y-%m-%dT%H:%M:%S%.3fZ`: the date of the day, and the time of
/// day as above. Every time in 64 bits of nanoseconds has a year of four digits.
#[verifier::external_body]
pub(crate) fn iso_text(ns: i64) -> (r: String)
    ensures
        r@ == iso(ns as int),
{
    chrono::DateTime::from_timestamp_nanos(ns).format("%Y-%m-%dT%H:%M:%S%.3fZ").to_string()
}

/// `DateTime::format` of chrono with `%Y%m%d_%H%M%S`: the same date without dashes, and hours,
/// minutes and seconds without colons.
#[verifier::external_body]
pub(crate) fn stamp_text(ns: i64) -> (r: String)
    ensures
        r@ == stamp(ns as int),
{
    chrono::DateTime::from_timestamp_nanos(ns).format("%Y%m%d_%H%M%S").to_string()
}

/// The point in time that an RFC 3339 text stands for, in whole seconds since 1970 and nanoseconds
/// on top of them, or the reason why it stands for none.
pub uninterp spec fn rfc3339(s: Seq<char>) -> Result<(i64, u32), Seq<char>>;

/// `DateTime::parse_from_rfc3339` of chrono, its time as seconds and nanoseconds.
#[verifier::external_body]
pub(crate) fn parse_rfc3339(s: &str) -> (r: Result<(i64, u32), String>)
    ensures
        match r {
            Ok(t) => rfc3339(s@) == Ok::<(i64, u32), Seq<char>>(t),
            Err(why) => rfc3339(s@) == Err::<(i64, u32), Seq<char>>(why@),
        },
{
    match chrono::DateTime::parse_from_rfc3339(s) {
        Ok(t) => Ok((t.timestamp(), t.timestamp_subsec_nanos())),
        Err(e) => Err(e.to_string()),
    }
}

// --- Laws ---

/// The year has a leap day.
pub open spec fn is_leap(year: int) -> bool {
    year % 4 == 0 && (year % 100 != 0 || year % 400 == 0)
}

/// The days of a month.
pub open spec fn month_days(year: int, month: int) -> int {
    if month == 2 {
        if is_leap(year) {
            29
        } else {
            28
        }
    } else if month == 4 || month == 6 || month == 9 || month == 11 {
        30
    } else {
        31
    }
}

/// The day after a date.
pub open spec fn next_date(d: Date) -> Date {
    if d.day < month_days(d.year, d.month) {
        Date { day: d.day + 1, ..d }
    } else if d.month < 12 {
        Date { month: d.month + 1, day: 1, ..d }
    } else {
        Date { year: d.year + 1, month: 1, day: 1 }
    }
}

/// The year of a day in a cycle of 400 years.
#[verifier::opaque]
spec fn cycle_year(n: int) -> int {
    (n - n / 1460 + n / 36_524 - n / 146_096) / 365
}

/// The days of a cycle before a year of it.
#[verifier::opaque]
spec fn year_start(y: int) -> int {
    365 * y + y / 4 - y / 100
}

/// A day of a cycle lies in its year.
#[verifier::spinoff_prover]
#[verifier::rlimit(50)]
proof fn in_its_year(n: int)
    requires
        0 <= n < 146_097,
    ensures
        0 <= cycle_year(n) < 400,
        year_start(cycle_year(n)) <= n,
        n < year_start(cycle_year(n) + 1) || cycle_year(n) == 399,
{
    reveal(cycle_year);
    reveal(year_start);
}

/// A year of a cycle is the only one that a day of it lies in.
#[verifier::spinoff_prover]
#[verifier::rlimit(50)]
proof fn the_only_year(n: int, y: int)
    requires
        0 <= n < 146_097,
        0 <= y < 400,
        year_start(y) <= n,
        n < year_start(y + 1) || y == 399,
    ensures
        cycle_year(n) == y,
{
    reveal(year_start);
    in_its_year(n);
    let z = cycle_year(n);
    if z < y {
        assert(year_start(z + 1) <= year_start(y));
    }
    if z > y {
        assert(year_start(y + 1) <= year_start(z));
    }
}

/// The days of a year of a cycle, which begins in March: one more where the next year is a leap year.
#[verifier::spinoff_prover]
#[verifier::rlimit(50)]
proof fn year_length(y: int, cycle: int)
    requires
        0 <= y < 400,
    ensures
        (if y == 399 {
            146_097
        } else {
            year_start(y + 1)
        }) - year_start(y) == (if is_leap(400 * cycle + y + 1) {
            366int
        } else {
            365
        }),
{
    reveal(year_start);
}

/// The date of a day in a year that begins in March.
#[verifier::opaque]
spec fn march_date(year: int, in_year: int) -> Date {
    let month = (5 * in_year + 2) / 153;
    Date {
        year: year + (if month < 10 {
            0int
        } else {
            1
        }),
        month: if month < 10 {
            month + 3
        } else {
            month - 9
        },
        day: in_year - (153 * month + 2) / 5 + 1,
    }
}

/// The days of a year that begins in March.
#[verifier::opaque]
spec fn march_length(year: int) -> int {
    if is_leap(year + 1) {
        366
    } else {
        365
    }
}

/// Within a year each day is followed by the next date.
#[verifier::spinoff_prover]
#[verifier::rlimit(50)]
proof fn next_in_year(year: int, in_year: int)
    requires
        0 <= in_year < in_year + 1 < march_length(year),
    ensures
        march_date(year, in_year + 1) == next_date(march_date(year, in_year)),
{
    reveal(march_date);
    reveal(march_length);
    let month = (5 * in_year + 2) / 153;
    let next = (5 * (in_year + 1) + 2) / 153;
    assert(0 <= month <= next <= month + 1 <= 12);
    assert(in_year <= 364);
    assert(month <= 11 && next <= 11);
}

/// The last day of a year is followed by the first of March.
proof fn year_turns(year: int)
    ensures
        march_date(year + 1, 0) == next_date(march_date(year, march_length(year) - 1)),
{
    reveal(march_date);
    reveal(march_length);
}

/// The year and the day in it, within a cycle.
#[verifier::spinoff_prover]
#[verifier::rlimit(50)]
proof fn date_in_cycle(day: int)
    ensures
        ({
            let cycle = (day + 719_468) / 146_097;
            let n = (day + 719_468) % 146_097;
            let y = cycle_year(n);
            &&& 0 <= y < 400
            &&& 0 <= n - year_start(y) < march_length(400 * cycle + y)
            &&& date_of(day) == march_date(400 * cycle + y, n - year_start(y))
        }),
{
    reveal(cycle_year);
    reveal(year_start);
    reveal(march_date);
    reveal(march_length);
    let n = (day + 719_468) % 146_097;
    in_its_year(n);
    year_length(cycle_year(n), (day + 719_468) / 146_097);
}

/// One day more, within a cycle or into the next.
proof fn cycle_step(m: int)
    ensures
        m % 146_097 < 146_096 ==> (m + 1) / 146_097 == m / 146_097 && (m + 1) % 146_097 == m
            % 146_097 + 1,
        m % 146_097 == 146_096 ==> (m + 1) / 146_097 == m / 146_097 + 1 && (m + 1) % 146_097 == 0,
{
}

/// Each day is followed by the next date.
#[verifier::spinoff_prover]
#[verifier::rlimit(50)]
proof fn next_day(day: int, today: Date, tomorrow: Date)
    requires
        today == date_of(day),
        tomorrow == date_of(day + 1),
    ensures
        tomorrow == next_date(today),
{
    let m = day + 719_468;
    let cycle = m / 146_097;
    let n = m % 146_097;
    let y = cycle_year(n);
    let year = 400 * cycle + y;
    let in_year = n - year_start(y);
    date_in_cycle(day);
    date_in_cycle(day + 1);
    cycle_step(m);
    year_length(y, cycle);
    let length = march_length(year);
    assert(length == (if is_leap(year + 1) {
        366int
    } else {
        365
    })) by {
        reveal(march_length);
    }
    if in_year + 1 < length {
        assert(n < 146_096) by {
            reveal(year_start);
        }
        the_only_year(n + 1, y);
        next_in_year(year, in_year);
    } else if y < 399 {
        assert(n + 1 == year_start(y + 1));
        assert(n < 146_096) by {
            reveal(year_start);
        }
        assert(year_start(y + 1) < year_start(y + 2)) by {
            reveal(year_start);
        }
        the_only_year(n + 1, y + 1);
        year_turns(year);
    } else {
        assert(n == 146_096);
        assert(year_start(0) == 0) by {
            reveal(year_start);
        }
        assert(year_start(1) > 0) by {
            reveal(year_start);
        }
        the_only_year(0, 0);
        year_turns(year);
    }
}

/// The calendar: day 0 is 1 January 1970, and each day is followed by the next date.
pub proof fn law_calendar(day: int)
    ensures
        date_of(0) == (Date { year: 1970, month: 1, day: 1 }),
        date_of(day + 1) == next_date(date_of(day)),
{
    next_day(day, date_of(day), date_of(day + 1));
}

/// The instant of a day and a time of day.
pub open spec fn instant(day: int, h: int, m: int, s: int, ms: int, rest: int) -> int {
    (((day * 24 + h) * 60 + m) * 60 + s) * 1_000_000_000 + ms * 1_000_000 + rest
}

/// The numbers are a time of day.
pub open spec fn in_a_day(h: int, m: int, s: int, ms: int, rest: int) -> bool {
    0 <= h < 24 && 0 <= m < 60 && 0 <= s < 60 && 0 <= ms < 1000 && 0 <= rest < 1_000_000
}

proof fn parts_of_instant(day: int, h: int, m: int, s: int, ms: int, rest: int)
    requires
        in_a_day(h, m, s, ms, rest),
    ensures
        ({
            let ns = instant(day, h, m, s, ms, rest);
            &&& ns / 1_000_000_000 / 3600 % 24 == h
            &&& ns / 1_000_000_000 / 60 % 60 == m
            &&& ns / 1_000_000_000 % 60 == s
            &&& ns / 1_000_000 % 1000 == ms
            &&& ns / 86_400_000_000_000 == day
        }),
{
    let ns = instant(day, h, m, s, ms, rest);
    let secs = ((day * 24 + h) * 60 + m) * 60 + s;
    assert(ns / 1_000_000_000 == secs);
    assert(secs / 60 == (day * 24 + h) * 60 + m);
    assert(secs / 3600 == day * 24 + h);
    assert(ns / 1_000_000 == secs * 1000 + ms);
}

/// The time of day of an instant is shown as its hours, minutes, seconds and milliseconds, in two, two,
/// two and three digits; the day does not matter, and what is below a millisecond is left out.
pub proof fn law_clock(day: int, h: int, m: int, s: int, ms: int, rest: int)
    requires
        in_a_day(h, m, s, ms, rest),
    ensures
        clock(instant(day, h, m, s, ms, rest)) == fixed_dec(h, 2) + seq![':'] + fixed_dec(m, 2)
            + seq![':'] + fixed_dec(s, 2) + seq!['.'] + fixed_dec(ms, 3),
{
    parts_of_instant(day, h, m, s, ms, rest);
}

/// A time stamp shows the date of its day and then its time of day.
pub proof fn law_stamps(day: int, h: int, m: int, s: int, ms: int, rest: int)
    requires
        in_a_day(h, m, s, ms, rest),
    ensures
        iso(instant(day, h, m, s, ms, rest)) == date_text(date_of(day), seq!['-']) + seq!['T']
            + clock(instant(day, h, m, s, ms, rest)) + seq!['Z'],
        stamp(instant(day, h, m, s, ms, rest)) == date_text(date_of(day), Seq::empty()) + seq![
            '_',
        ] + (fixed_dec(h, 2) + fixed_dec(m, 2) + fixed_dec(s, 2)),
{
    parts_of_instant(day, h, m, s, ms, rest);
    assert(day_time(instant(day, h, m, s, ms, rest), Seq::empty()) =~= fixed_dec(h, 2) + fixed_dec(
        m,
        2,
    ) + fixed_dec(s, 2));
}

/// A date is its year, month and day, in four, two and two digits, with the separator between them.
pub proof fn law_date_text(d: Date, sep: Seq<char>)
    ensures
        date_text(d, sep) == fixed_dec(d.year, 4) + sep + fixed_dec(d.month, 2) + sep + fixed_dec(
            d.day,
            2,
        ),
{
}

} // verus!
