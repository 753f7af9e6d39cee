//! Where the time labels go and what they say.
//!
//! Time labels are placed on the bars where a round unit of time changes (a new minute, hour,
//! day, month), so they read well however the chart is zoomed, and they stay correct across
//! weekend gaps because they look at the times of the bars, not at their positions.

use vstd::prelude::*;

use crate::text::{chars_of, decimal, push_char, push_chars, push_decimal, push_two_digits, two_digits};

verus! {

pub const SECOND: i64 = 1_000;

pub const MINUTE: i64 = 60_000;

pub const HOUR: i64 = 3_600_000;

pub const DAY: i64 = 86_400_000;

/// A step of the time axis.
#[derive(Debug, Clone, Copy, PartialEq, Eq, Structural)]
pub enum Unit {
    Fixed(i64),
    Months(i64),
    Years(i64),
}

/// The length a step stands for, for choosing between steps.
pub open spec fn nominal_spec(unit: Unit) -> int {
    match unit {
        Unit::Fixed(ms) => ms as int,
        Unit::Months(n) => n * 30 * DAY,
        Unit::Years(n) => n * 365 * DAY,
    }
}

/// Whether a step can cut time into buckets: a positive length or count.
pub open spec fn unit_ok(unit: Unit) -> bool {
    match unit {
        Unit::Fixed(ms) => ms > 0,
        Unit::Months(n) => n > 0,
        Unit::Years(n) => n > 0,
    }
}

impl Unit {
    /// The length it stands for, for choosing between steps.
    pub fn nominal_ms(self) -> (r: i64)
        requires
            i64::MIN <= nominal_spec(self) <= i64::MAX,
        ensures
            r == nominal_spec(self),
    {
        match self {
            Self::Fixed(ms) => ms,
            Self::Months(n) => {
                assert(n * 30 * DAY == n * (30 * DAY)) by (nonlinear_arith);
                n * (30 * DAY)
            },
            Self::Years(n) => {
                assert(n * 365 * DAY == n * (365 * DAY)) by (nonlinear_arith);
                n * (365 * DAY)
            },
        }
    }
}

/// How many steps the ladder of the time axis has.
pub const LADDER_LEN: usize = 28;

/// The steps of the time axis, from the shortest to the longest.
pub open spec fn ladder_spec(k: int) -> Unit {
    if k == 0 { Unit::Fixed(SECOND) }
    else if k == 1 { Unit::Fixed((2 * SECOND) as i64) }
    else if k == 2 { Unit::Fixed((5 * SECOND) as i64) }
    else if k == 3 { Unit::Fixed((10 * SECOND) as i64) }
    else if k == 4 { Unit::Fixed((15 * SECOND) as i64) }
    else if k == 5 { Unit::Fixed((30 * SECOND) as i64) }
    else if k == 6 { Unit::Fixed(MINUTE) }
    else if k == 7 { Unit::Fixed((2 * MINUTE) as i64) }
    else if k == 8 { Unit::Fixed((5 * MINUTE) as i64) }
    else if k == 9 { Unit::Fixed((10 * MINUTE) as i64) }
    else if k == 10 { Unit::Fixed((15 * MINUTE) as i64) }
    else if k == 11 { Unit::Fixed((30 * MINUTE) as i64) }
    else if k == 12 { Unit::Fixed(HOUR) }
    else if k == 13 { Unit::Fixed((2 * HOUR) as i64) }
    else if k == 14 { Unit::Fixed((3 * HOUR) as i64) }
    else if k == 15 { Unit::Fixed((4 * HOUR) as i64) }
    else if k == 16 { Unit::Fixed((6 * HOUR) as i64) }
    else if k == 17 { Unit::Fixed((12 * HOUR) as i64) }
    else if k == 18 { Unit::Fixed(DAY) }
    else if k == 19 { Unit::Fixed((2 * DAY) as i64) }
    else if k == 20 { Unit::Fixed((7 * DAY) as i64) }
    else if k == 21 { Unit::Months(1) }
    else if k == 22 { Unit::Months(2) }
    else if k == 23 { Unit::Months(3) }
    else if k == 24 { Unit::Months(6) }
    else if k == 25 { Unit::Years(1) }
    else if k == 26 { Unit::Years(2) }
    else { Unit::Years(5) }
}

/// The step at `k` of the ladder.
pub fn ladder(k: usize) -> (u: Unit)
    requires
        k < LADDER_LEN,
    ensures
        u == ladder_spec(k as int),
{
    match k {
        0 => Unit::Fixed(SECOND),
        1 => Unit::Fixed(2 * SECOND),
        2 => Unit::Fixed(5 * SECOND),
        3 => Unit::Fixed(10 * SECOND),
        4 => Unit::Fixed(15 * SECOND),
        5 => Unit::Fixed(30 * SECOND),
        6 => Unit::Fixed(MINUTE),
        7 => Unit::Fixed(2 * MINUTE),
        8 => Unit::Fixed(5 * MINUTE),
        9 => Unit::Fixed(10 * MINUTE),
        10 => Unit::Fixed(15 * MINUTE),
        11 => Unit::Fixed(30 * MINUTE),
        12 => Unit::Fixed(HOUR),
        13 => Unit::Fixed(2 * HOUR),
        14 => Unit::Fixed(3 * HOUR),
        15 => Unit::Fixed(4 * HOUR),
        16 => Unit::Fixed(6 * HOUR),
        17 => Unit::Fixed(12 * HOUR),
        18 => Unit::Fixed(DAY),
        19 => Unit::Fixed(2 * DAY),
        20 => Unit::Fixed(7 * DAY),
        21 => Unit::Months(1),
        22 => Unit::Months(2),
        23 => Unit::Months(3),
        24 => Unit::Months(6),
        25 => Unit::Years(1),
        26 => Unit::Years(2),
        _ => Unit::Years(5),
    }
}

/// The first step of the ladder from `k` on that is at least `wanted` long, or ten years past
/// its end.
pub open spec fn pick_from(wanted: int, k: int) -> Unit
    decreases LADDER_LEN - k,
{
    if k < 0 || k >= LADDER_LEN {
        Unit::Years(10)
    } else if nominal_spec(ladder_spec(k)) >= wanted {
        ladder_spec(k)
    } else {
        pick_from(wanted, k + 1)
    }
}

/// The step of the time axis for labels about `wanted` milliseconds apart: the shortest of the
/// ladder that is at least that long, or ten years.
pub fn pick_unit(wanted: i64) -> (u: Unit)
    ensures
        u == pick_from(wanted as int, 0),
        unit_ok(u),
{
    let mut k: usize = 0;
    while k < LADDER_LEN
        invariant
            k <= LADDER_LEN,
            pick_from(wanted as int, 0) == pick_from(wanted as int, k as int),
        decreases LADDER_LEN - k,
    {
        let u = ladder(k);
        if u.nominal_ms() >= wanted {
            return u;
        }
        k = k + 1;
    }
    Unit::Years(10)
}

/// A date and time of day, in UTC.
#[derive(Debug, Clone, Copy, PartialEq, Eq, Structural)]
pub struct Civil {
    pub year: i32,
    pub month: u8,
    pub day: u8,
    pub hour: u8,
    pub minute: u8,
    pub second: u8,
    pub millisecond: u16,
    /// Days since the last Monday: 0 on a Monday, 6 on a Sunday.
    pub weekday: u8,
}

/// The first and the last second that a date in the years -9999 to 9999 can stand for.
pub const FIRST_SECOND: i64 = -377_705_116_800;

pub const LAST_SECOND: i64 = 253_402_300_799;

/// The date (year, month, day) in the proleptic Gregorian calendar, with a year 0, of the day that
/// holds the Unix second `seconds`, in UTC. The days are counted from 1 March of the year 0 in eras
/// of 400 years (146,097 days), each year of an era running from March to February.
#[verifier::opaque]
pub open spec fn utc_date(seconds: i64) -> (i32, u8, u8) {
    let z = seconds as int / 86_400 + 719_468;
    let era = z / 146_097;
    let doe = z - era * 146_097;
    let yoe = (doe - doe / 1_460 + doe / 36_524 - doe / 146_096) / 365;
    let doy = doe - (365 * yoe + yoe / 4 - yoe / 100);
    let mp = (5 * doy + 2) / 153;
    let day = doy - (153 * mp + 2) / 5 + 1;
    let month = if mp < 10 { mp + 3 } else { mp - 9 };
    let year = yoe + era * 400 + if month <= 2 { 1int } else { 0int };
    (year as i32, month as u8, day as u8)
}

/// The date and time of the Unix second `seconds`, in UTC, as `time::OffsetDateTime` reads it:
/// year, month, day, hour, minute, second and days since Monday. Claimed of
/// `OffsetDateTime::from_unix_timestamp` and its getters, as their source shows them with the
/// crate's `large-dates` feature off: there is a date exactly for the seconds of the years -9999
/// to 9999; that date is the proleptic Gregorian one of `utc_date`, with a month of 1 to 12 and a
/// day of 1 to 31; the time of day and the day of the week come from the second by plain division.
#[verifier::external_body]
fn utc_parts(seconds: i64) -> (r: Option<(i32, u8, u8, u8, u8, u8, u8)>)
    ensures
        r is Some <==> FIRST_SECOND <= seconds <= LAST_SECOND,
        r matches Some(p) ==> (p.0, p.1, p.2) == utc_date(seconds),
        r matches Some(p) ==> -9999 <= p.0 <= 9999 && 1 <= p.1 <= 12 && 1 <= p.2 <= 31,
        r matches Some(p) ==> p.3 == (seconds as int % 86_400) / 3_600,
        r matches Some(p) ==> p.4 == (seconds as int % 3_600) / 60,
        r matches Some(p) ==> p.5 == seconds as int % 60,
        r matches Some(p) ==> p.6 == (seconds as int / 86_400 + 3) % 7,
{
    match time::OffsetDateTime::from_unix_timestamp(seconds) {
        Ok(dt) => Some(
            (
                dt.year(),
                dt.month() as u8,
                dt.day(),
                dt.hour(),
                dt.minute(),
                dt.second(),
                dt.weekday().number_days_from_monday(),
            ),
        ),
        Err(_) => None,
    }
}

/// The date and time of the millisecond `time_ms`, in UTC, where the calendar reaches it.
pub open spec fn civil_spec(time_ms: i64) -> Option<Civil> {
    let seconds = time_ms as int / 1000;
    if FIRST_SECOND <= seconds <= LAST_SECOND {
        let date = utc_date(seconds as i64);
        Some(
            Civil {
                year: date.0,
                month: date.1,
                day: date.2,
                hour: ((seconds % 86_400) / 3_600) as u8,
                minute: ((seconds % 3_600) / 60) as u8,
                second: (seconds % 60) as u8,
                millisecond: (time_ms as int % 1000) as u16,
                weekday: ((seconds / 86_400 + 3) % 7) as u8,
            },
        )
    } else {
        None
    }
}

/// The date and time of the millisecond `time_ms`, in UTC; `None` past the years -9999 to 9999.
pub fn civil(time_ms: i64) -> (r: Option<Civil>)
    ensures
        r == civil_spec(time_ms),
        r matches Some(c) ==> -9999 <= c.year <= 9999 && 1 <= c.month <= 12 && 1 <= c.day <= 31
            && c.hour < 24 && c.minute < 60 && c.second < 60 && c.millisecond < 1000 && c.weekday < 7,
{
    let t = time_ms as i128;
    let s128: i128 = if t >= 0 { t / 1000 } else { -((-(t + 1)) / 1000) - 1 };
    let ms128: i128 = t - s128 * 1000;
    assert(s128 == time_ms as int / 1000 && ms128 == time_ms as int % 1000) by (nonlinear_arith)
        requires
            t == time_ms,
            s128 == (if t >= 0 { t / 1000 } else { -((-(t + 1)) / 1000) - 1 }),
            ms128 == t - s128 * 1000,
    ;
    let seconds = s128 as i64;
    let millisecond = ms128 as u16;
    match utc_parts(seconds) {
        Some(p) => Some(
            Civil {
                year: p.0,
                month: p.1,
                day: p.2,
                hour: p.3,
                minute: p.4,
                second: p.5,
                millisecond: millisecond as u16,
                weekday: p.6,
            },
        ),
        None => None,
    }
}

/// The short English name of a month, from 1 for January; out of range it is clamped.
pub open spec fn month_text(month: int) -> Seq<char> {
    if month <= 1 { seq!['J', 'a', 'n'] }
    else if month == 2 { seq!['F', 'e', 'b'] }
    else if month == 3 { seq!['M', 'a', 'r'] }
    else if month == 4 { seq!['A', 'p', 'r'] }
    else if month == 5 { seq!['M', 'a', 'y'] }
    else if month == 6 { seq!['J', 'u', 'n'] }
    else if month == 7 { seq!['J', 'u', 'l'] }
    else if month == 8 { seq!['A', 'u', 'g'] }
    else if month == 9 { seq!['S', 'e', 'p'] }
    else if month == 10 { seq!['O', 'c', 't'] }
    else if month == 11 { seq!['N', 'o', 'v'] }
    else { seq!['D', 'e', 'c'] }
}

/// The short English name of a month, from 1 for January; out of range it is clamped.
pub fn month_name(month: u8) -> (r: &'static str)
    ensures
        r@ == month_text(month as int),
{
    proof {
        reveal_strlit("Jan");
        reveal_strlit("Feb");
        reveal_strlit("Mar");
        reveal_strlit("Apr");
        reveal_strlit("May");
        reveal_strlit("Jun");
        reveal_strlit("Jul");
        reveal_strlit("Aug");
        reveal_strlit("Sep");
        reveal_strlit("Oct");
        reveal_strlit("Nov");
        reveal_strlit("Dec");
    }
    if month <= 1 { "Jan" }
    else if month == 2 { "Feb" }
    else if month == 3 { "Mar" }
    else if month == 4 { "Apr" }
    else if month == 5 { "May" }
    else if month == 6 { "Jun" }
    else if month == 7 { "Jul" }
    else if month == 8 { "Aug" }
    else if month == 9 { "Sep" }
    else if month == 10 { "Oct" }
    else if month == 11 { "Nov" }
    else { "Dec" }
}

/// The first three letters of the English name of the day `weekday` days after a Monday.
pub open spec fn weekday_text(weekday: int) -> Seq<char> {
    if weekday <= 0 { seq!['M', 'o', 'n'] }
    else if weekday == 1 { seq!['T', 'u', 'e'] }
    else if weekday == 2 { seq!['W', 'e', 'd'] }
    else if weekday == 3 { seq!['T', 'h', 'u'] }
    else if weekday == 4 { seq!['F', 'r', 'i'] }
    else if weekday == 5 { seq!['S', 'a', 't'] }
    else { seq!['S', 'u', 'n'] }
}

fn weekday_name(weekday: u8) -> (r: &'static str)
    ensures
        r@ == weekday_text(weekday as int),
{
    proof {
        reveal_strlit("Mon");
        reveal_strlit("Tue");
        reveal_strlit("Wed");
        reveal_strlit("Thu");
        reveal_strlit("Fri");
        reveal_strlit("Sat");
        reveal_strlit("Sun");
    }
    if weekday == 0 { "Mon" }
    else if weekday == 1 { "Tue" }
    else if weekday == 2 { "Wed" }
    else if weekday == 3 { "Thu" }
    else if weekday == 4 { "Fri" }
    else if weekday == 5 { "Sat" }
    else { "Sun" }
}

/// Appends the characters of `t`.
fn push_str(s: &mut String, t: &str)
    ensures
        final(s)@ == old(s)@ + t@,
{
    let cs = chars_of(t);
    push_chars(s, &cs);
}

/// `v` in decimal, with a minus sign when it is negative.
pub open spec fn signed_decimal(v: int) -> Seq<char> {
    if v < 0 { seq!['-'] + decimal((-v) as nat) } else { decimal(v as nat) }
}

fn push_signed(s: &mut String, v: i32)
    ensures
        final(s)@ == old(s)@ + signed_decimal(v as int),
{
    if v < 0 {
        push_char(s, '-');
        push_decimal(s, (-(v as i64)) as u64);
        proof {
            assert(final(s)@ =~= old(s)@ + signed_decimal(v as int)) by {
                assert(seq!['-'] + decimal((-v) as nat) == signed_decimal(v as int));
            }
        }
    } else {
        push_decimal(s, v as u64);
    }
}

/// `n` written with at least three digits.
pub open spec fn three_digits(n: nat) -> Seq<char> {
    if n < 10 {
        seq!['0', '0'] + decimal(n)
    } else if n < 100 {
        seq!['0'] + decimal(n)
    } else {
        decimal(n)
    }
}

fn push_three_digits(s: &mut String, n: u64)
    ensures
        final(s)@ == old(s)@ + three_digits(n as nat),
{
    let ghost start = s@;
    if n < 10 {
        push_char(s, '0');
        push_char(s, '0');
    } else if n < 100 {
        push_char(s, '0');
    }
    push_decimal(s, n);
    proof {
        if n < 10 {
            assert(s@ =~= start + three_digits(n as nat));
        } else if n < 100 {
            assert(s@ =~= start + three_digits(n as nat));
        } else {
            assert(s@ =~= start + three_digits(n as nat));
        }
    }
}

/// Which bucket of the step `unit` the millisecond `time_ms` falls in: whole steps since the
/// epoch for a fixed step, whole months or years since year zero for a calendar one (0 where the
/// calendar does not reach).
pub open spec fn bucket_spec(unit: Unit, time_ms: i64) -> int {
    match unit {
        Unit::Fixed(ms) => time_ms as int / (ms as int),
        Unit::Months(n) => match civil_spec(time_ms) {
            Some(c) => (c.year * 12 + c.month - 1) / (n as int),
            None => 0,
        },
        Unit::Years(n) => match civil_spec(time_ms) {
            Some(c) => c.year as int / (n as int),
            None => 0,
        },
    }
}

/// Which bucket of the step `unit` the millisecond `time_ms` falls in.
pub fn bucket(unit: Unit, time_ms: i64) -> (r: i64)
    requires
        unit_ok(unit),
    ensures
        r == bucket_spec(unit, time_ms),
{
    match unit {
        Unit::Fixed(ms) => {
            let t = time_ms as i128;
            let m = ms as i128;
            let q: i128 = if t >= 0 { t / m } else { -((-(t + 1)) / m) - 1 };
            assert(q == t as int / m as int) by (nonlinear_arith)
                requires
                    m > 0,
                    q == (if t >= 0 { t as int / m as int } else { -((-(t + 1)) / m as int) - 1 }),
            ;
            assert(i64::MIN <= q <= i64::MAX) by (nonlinear_arith)
                requires
                    m > 0,
                    q == t as int / m as int,
                    i64::MIN <= t <= i64::MAX,
            ;
            q as i64
        },
        Unit::Months(n) => match civil(time_ms) {
            Some(c) => {
                let months = c.year as i64 * 12 + c.month as i64 - 1;
                let q: i64 = if months >= 0 { months / n } else { -((-(months + 1)) / n) - 1 };
                assert(q == months as int / n as int) by (nonlinear_arith)
                    requires
                        n > 0,
                        q == (if months >= 0 { months as int / n as int } else { -((-(months + 1)) / n as int) - 1 }),
                ;
                q
            },
            None => 0,
        },
        Unit::Years(n) => match civil(time_ms) {
            Some(c) => {
                let y = c.year as i64;
                let q: i64 = if y >= 0 { y / n } else { -((-(y + 1)) / n) - 1 };
                assert(q == y as int / n as int) by (nonlinear_arith)
                    requires
                        n > 0,
                        q == (if y >= 0 { y as int / n as int } else { -((-(y + 1)) / n as int) - 1 }),
                ;
                q
            },
            None => 0,
        },
    }
}

/// The civil time of `before`, where there is one and the calendar reaches it.
pub open spec fn earlier_spec(before: Option<i64>) -> Option<Civil> {
    match before {
        Some(b) => civil_spec(b),
        None => None,
    }
}

/// The text of a label on the step `unit` at the time `c`, and whether it is a major one, given
/// the date and time `e` of the point before it.
pub open spec fn label_of(unit: Unit, c: Civil, e: Option<Civil>) -> (Seq<char>, bool) {
    let new_day = match e {
        Some(e) => !(e.year == c.year && e.month == c.month && e.day == c.day),
        None => true,
    };
    let new_year = match e {
        Some(e) => e.year != c.year,
        None => true,
    };
    let new_month = match e {
        Some(e) => !(e.year == c.year && e.month == c.month),
        None => true,
    };
    match unit {
        Unit::Fixed(ms) => if ms < DAY {
            if new_day {
                (decimal(c.day as nat) + seq![' '] + month_text(c.month as int), true)
            } else if ms < MINUTE {
                (two_digits(c.hour as nat) + seq![':'] + two_digits(c.minute as nat) + seq![':'] + two_digits(c.second as nat), false)
            } else {
                (two_digits(c.hour as nat) + seq![':'] + two_digits(c.minute as nat), false)
            }
        } else if new_year {
            (signed_decimal(c.year as int), true)
        } else if new_month {
            (month_text(c.month as int), true)
        } else {
            (decimal(c.day as nat), false)
        },
        Unit::Months(_) => if new_year {
            (signed_decimal(c.year as int), true)
        } else {
            (month_text(c.month as int), false)
        },
        Unit::Years(_) => (signed_decimal(c.year as int), true),
    }
}

/// The text of a label at `time` and whether it is a major one, given the time of the point
/// before it: nothing where the calendar does not reach.
pub open spec fn label_spec(unit: Unit, time: i64, before: Option<i64>) -> (Seq<char>, bool) {
    match civil_spec(time) {
        Some(c) => label_of(unit, c, earlier_spec(before)),
        None => (Seq::empty(), false),
    }
}

/// The text of a label on the step `unit` at the date and time `c`, and whether it is a major
/// one, given the date and time `earlier` of the point before it (see [`label_of`]).
pub fn label_for(unit: Unit, c: Civil, earlier: Option<Civil>) -> (r: (String, bool))
    ensures
        r.0@ == label_of(unit, c, earlier).0,
        r.1 == label_of(unit, c, earlier).1,
{
    let new_day = match earlier {
        Some(e) => !(e.year == c.year && e.month == c.month && e.day == c.day),
        None => true,
    };
    let new_year = match earlier {
        Some(e) => e.year != c.year,
        None => true,
    };
    let new_month = match earlier {
        Some(e) => !(e.year == c.year && e.month == c.month),
        None => true,
    };
    let mut s = String::new();
    let major;
    match unit {
        Unit::Fixed(ms) => {
            if ms < DAY {
                if new_day {
                    push_decimal(&mut s, c.day as u64);
                    push_char(&mut s, ' ');
                    push_str(&mut s, month_name(c.month));
                    major = true;
                } else if ms < MINUTE {
                    push_two_digits(&mut s, c.hour as u64);
                    push_char(&mut s, ':');
                    push_two_digits(&mut s, c.minute as u64);
                    push_char(&mut s, ':');
                    push_two_digits(&mut s, c.second as u64);
                    major = false;
                } else {
                    push_two_digits(&mut s, c.hour as u64);
                    push_char(&mut s, ':');
                    push_two_digits(&mut s, c.minute as u64);
                    major = false;
                }
            } else if new_year {
                push_signed(&mut s, c.year);
                major = true;
            } else if new_month {
                push_str(&mut s, month_name(c.month));
                major = true;
            } else {
                push_decimal(&mut s, c.day as u64);
                major = false;
            }
        },
        Unit::Months(_) => {
            if new_year {
                push_signed(&mut s, c.year);
                major = true;
            } else {
                push_str(&mut s, month_name(c.month));
                major = false;
            }
        },
        Unit::Years(_) => {
            push_signed(&mut s, c.year);
            major = true;
        },
    }
    proof {
        assert(s@ =~= label_of(unit, c, earlier).0);
    }
    (s, major)
}

/// The text of a label and whether it is a major one, given the time of the point before it.
pub fn label_text(unit: Unit, time: i64, before: Option<i64>) -> (r: (String, bool))
    ensures
        r.0@ == label_spec(unit, time, before).0,
        r.1 == label_spec(unit, time, before).1,
{
    let c = match civil(time) {
        Some(c) => c,
        None => {
            return (String::new(), false);
        },
    };
    let earlier = match before {
        Some(b) => civil(b),
        None => None,
    };
    label_for(unit, c, earlier)
}

/// A date and time written for the crosshair: `Mon 5 Jan 2026  00:01`, then the seconds, and the
/// milliseconds, where they are asked for.
pub open spec fn civil_text_spec(c: Civil, with_seconds: bool, with_millis: bool) -> Seq<char> {
    let base = weekday_text(c.weekday as int) + seq![' '] + decimal(c.day as nat) + seq![' ']
        + month_text(c.month as int) + seq![' '] + signed_decimal(c.year as int) + seq![' ', ' ']
        + two_digits(c.hour as nat) + seq![':'] + two_digits(c.minute as nat);
    let secs = if with_seconds || with_millis { seq![':'] + two_digits(c.second as nat) } else { Seq::empty() };
    let millis = if with_millis { seq!['.'] + three_digits(c.millisecond as nat) } else { Seq::empty() };
    base + secs + millis
}

/// The full date and time of the millisecond `time_ms` for the crosshair, in UTC; nothing where
/// the calendar does not reach.
pub open spec fn full_time_spec(time_ms: i64, with_seconds: bool, with_millis: bool) -> Seq<char> {
    match civil_spec(time_ms) {
        Some(c) => civil_text_spec(c, with_seconds, with_millis),
        None => Seq::empty(),
    }
}

/// A date and time written for the crosshair (see [`civil_text_spec`]).
pub fn civil_text(c: Civil, with_seconds: bool, with_millis: bool) -> (r: String)
    ensures
        r@ == civil_text_spec(c, with_seconds, with_millis),
{
    let mut s = String::new();
    push_str(&mut s, weekday_name(c.weekday));
    push_char(&mut s, ' ');
    push_decimal(&mut s, c.day as u64);
    push_char(&mut s, ' ');
    push_str(&mut s, month_name(c.month));
    push_char(&mut s, ' ');
    push_signed(&mut s, c.year);
    push_char(&mut s, ' ');
    push_char(&mut s, ' ');
    push_two_digits(&mut s, c.hour as u64);
    push_char(&mut s, ':');
    push_two_digits(&mut s, c.minute as u64);
    let ghost base = s@;
    if with_seconds || with_millis {
        push_char(&mut s, ':');
        push_two_digits(&mut s, c.second as u64);
    }
    if with_millis {
        push_char(&mut s, '.');
        push_three_digits(&mut s, c.millisecond as u64);
    }
    proof {
        let spec_base = weekday_text(c.weekday as int) + seq![' '] + decimal(c.day as nat) + seq![' ']
            + month_text(c.month as int) + seq![' '] + signed_decimal(c.year as int) + seq![' ', ' ']
            + two_digits(c.hour as nat) + seq![':'] + two_digits(c.minute as nat);
        assert(base =~= spec_base);
        assert(s@ =~= civil_text_spec(c, with_seconds, with_millis));
    }
    s
}

/// The full date and time of a point, for the crosshair. UTC.
pub fn full_time(time_ms: i64, with_seconds: bool, with_millis: bool) -> (r: String)
    ensures
        r@ == full_time_spec(time_ms, with_seconds, with_millis),
{
    match civil(time_ms) {
        Some(c) => civil_text(c, with_seconds, with_millis),
        None => String::new(),
    }
}

/// A label of the time axis.
#[derive(Debug, Clone)]
pub struct TimeLabel {
    /// Which point it belongs to.
    pub index: usize,
    pub text: String,
    /// Whether it names a bigger unit than its neighbours (a new day among hours).
    pub major: bool,
}

/// The time of the latest point in `lo..i` that has one.
pub open spec fn latest_time(times: Seq<Option<i64>>, lo: int, i: int) -> Option<i64>
    decreases i - lo,
{
    if i <= lo {
        None
    } else if times[i - 1] is Some {
        times[i - 1]
    } else {
        latest_time(times, lo, i - 1)
    }
}

/// Where the points before `first` that count start: the one just before it.
pub open spec fn look_back(first: int) -> int {
    if first > 0 { first - 1 } else { 0 }
}

/// Whether the point `i` starts a new bucket of `unit`: it has a time, and the latest point
/// before it with one (from the one before `first` on) is in another bucket, or there is none.
pub open spec fn starts_bucket(unit: Unit, times: Seq<Option<i64>>, first: int, i: int) -> bool {
    match times[i] {
        Some(t) => match latest_time(times, look_back(first), i) {
            Some(p) => bucket_spec(unit, p) != bucket_spec(unit, t),
            None => true,
        },
        None => false,
    }
}

/// The labels the points `first..k` could carry: one on every point that starts a bucket, with
/// its text and whether it is major, in the order of the points.
pub open spec fn marks_spec(unit: Unit, times: Seq<Option<i64>>, first: int, k: int) -> Seq<(int, Seq<char>, bool)>
    decreases k - first,
{
    if k <= first {
        Seq::empty()
    } else {
        let before = marks_spec(unit, times, first, k - 1);
        if starts_bucket(unit, times, first, k - 1) {
            let l = label_spec(unit, times[k - 1]->Some_0, latest_time(times, look_back(first), k - 1));
            before.push((k - 1, l.0, l.1))
        } else {
            before
        }
    }
}

/// The labels that the points `first..` of `times` could carry on the step `unit`: one where a
/// bucket of the unit starts, looking at the times of the points (a point without one is passed
/// over), with what it says. Which of them fit on the screen is for the caller to choose, by
/// their places.
pub fn time_marks(unit: Unit, times: &[Option<i64>], first: usize) -> (out: Vec<TimeLabel>)
    requires
        unit_ok(unit),
    ensures
        out@.len() == marks_spec(unit, times@, first as int, times@.len() as int).len(),
        forall|j: int| 0 <= j < out@.len() ==> {
            let m = #[trigger] marks_spec(unit, times@, first as int, times@.len() as int)[j];
            &&& out@[j].index == m.0
            &&& out@[j].text@ == m.1
            &&& out@[j].major == m.2
        },
{
    let n = times.len();
    let mut out: Vec<TimeLabel> = Vec::new();
    let lo: usize = if first > 0 { first - 1 } else { 0 };
    let mut previous: Option<i64> = if first > 0 && first - 1 < n { times[first - 1] } else { None };
    if first >= n {
        proof {
            assert(marks_spec(unit, times@, first as int, n as int).len() == 0);
        }
        return out;
    }
    proof {
        if first > 0 {
            assert(latest_time(times@, lo as int, first as int) == (if times@[first - 1] is Some { times@[first - 1] } else { latest_time(times@, lo as int, first - 1) }));
        }
    }
    let mut i: usize = first;
    while i < n
        invariant
            first <= i <= n,
            n == times@.len(),
            lo == look_back(first as int),
            unit_ok(unit),
            previous == latest_time(times@, lo as int, i as int),
            out@.len() == marks_spec(unit, times@, first as int, i as int).len(),
            forall|j: int| 0 <= j < out@.len() ==> {
                let m = #[trigger] marks_spec(unit, times@, first as int, i as int)[j];
                &&& out@[j].index == m.0
                &&& out@[j].text@ == m.1
                &&& out@[j].major == m.2
            },
        decreases n - i,
    {
        let ghost before = marks_spec(unit, times@, first as int, i as int);
        let ghost before_out = out@;
        match times[i] {
            Some(time) => {
                let key = bucket(unit, time);
                let starts = match previous {
                    Some(p) => bucket(unit, p) != key,
                    None => true,
                };
                let back = previous;
                previous = Some(time);
                if starts {
                    let (text, major) = label_text(unit, time, back);
                    out.push(TimeLabel { index: i, text, major });
                    proof {
                        assert forall|j: int| 0 <= j < before_out.len() implies out@[j] == before_out[j] by {}
                    }
                }
            },
            None => {},
        }
        proof {
            assert(marks_spec(unit, times@, first as int, i + 1) == (if starts_bucket(unit, times@, first as int, i as int) {
                let l = label_spec(unit, times@[i as int]->Some_0, latest_time(times@, look_back(first as int), i as int));
                before.push((i as int, l.0, l.1))
            } else {
                before
            }));
        }
        i = i + 1;
    }
    out
}

/// A label goes only where a bucket of the unit starts, labels come in the order of their
/// points, and every point that starts a bucket gets one.
pub proof fn law_labels_sit_where_a_unit_starts(unit: Unit, times: Seq<Option<i64>>, first: int, k: int)
    requires
        0 <= first,
        k <= times.len(),
    ensures
        forall|j: int| 0 <= j < marks_spec(unit, times, first, k).len() ==> {
            let m = #[trigger] marks_spec(unit, times, first, k)[j];
            first <= m.0 < k && starts_bucket(unit, times, first, m.0)
        },
        forall|a: int, b: int| 0 <= a < b < marks_spec(unit, times, first, k).len() ==>
            (#[trigger] marks_spec(unit, times, first, k)[a]).0 < (#[trigger] marks_spec(unit, times, first, k)[b]).0,
        forall|i: int| first <= i < k && #[trigger] starts_bucket(unit, times, first, i) ==>
            exists|j: int| 0 <= j < marks_spec(unit, times, first, k).len() && (#[trigger] marks_spec(unit, times, first, k)[j]).0 == i,
    decreases k - first,
{
    if k > first {
        law_labels_sit_where_a_unit_starts(unit, times, first, k - 1);
        let before = marks_spec(unit, times, first, k - 1);
        let now = marks_spec(unit, times, first, k);
        if starts_bucket(unit, times, first, k - 1) {
            assert forall|j: int| 0 <= j < before.len() implies now[j] == before[j] by {}
            assert(now[before.len() as int].0 == k - 1);
            assert forall|i: int| first <= i < k && #[trigger] starts_bucket(unit, times, first, i) implies
                exists|j: int| 0 <= j < now.len() && (#[trigger] now[j]).0 == i by {
                if i == k - 1 {
                    assert(now[before.len() as int].0 == i);
                } else {
                    let j = choose|j: int| 0 <= j < before.len() && (#[trigger] before[j]).0 == i;
                    assert(now[j].0 == i);
                }
            }
        }
    }
}

/// The month of every date lies between 1 and 12.
proof fn lemma_month_in_range(seconds: i64)
    ensures
        1 <= utc_date(seconds).1 <= 12,
{
    reveal(utc_date);
    let z = seconds as int / 86_400 + 719_468;
    let era = z / 146_097;
    let doe = z - era * 146_097;
    assert(0 <= doe < 146_097);
    let yoe = (doe - doe / 1_460 + doe / 36_524 - doe / 146_096) / 365;
    assert(0 <= yoe <= 399);
    let doy = doe - (365 * yoe + yoe / 4 - yoe / 100);
    assert(0 <= doy <= 365);
    let mp = (5 * doy + 2) / 153;
    assert(0 <= mp <= 11);
}

/// A step of months groups dates by calendar month: the bucket of a date is the count of months
/// from January of the year 0 to its month, divided by the step and rounded down; so two dates
/// fall in one bucket of one month exactly when they are in the same month of the same year. A
/// step of years groups them by calendar year the same way.
pub proof fn law_calendar_buckets_follow_the_months(n: i64, t: i64, u: i64)
    requires
        n > 0,
    ensures
        civil_spec(t) matches Some(c) ==> bucket_spec(Unit::Months(n), t) == (12 * c.year + c.month - 1) / (n as int),
        civil_spec(t) matches Some(c) ==> bucket_spec(Unit::Years(n), t) == (c.year as int) / (n as int),
        ({
            let c = civil_spec(t)->Some_0;
            let d = civil_spec(u)->Some_0;
            civil_spec(t) is Some && civil_spec(u) is Some ==> (bucket_spec(Unit::Months(1), t) == bucket_spec(Unit::Months(1), u) <==> (c.year == d.year
                && c.month == d.month))
        }),
        ({
            let c = civil_spec(t)->Some_0;
            let d = civil_spec(u)->Some_0;
            civil_spec(t) is Some && civil_spec(u) is Some ==> (bucket_spec(Unit::Years(1), t) == bucket_spec(
                Unit::Years(1),
                u,
            ) <==> c.year == d.year)
        }),
{
    lemma_month_in_range((t as int / 1000) as i64);
    lemma_month_in_range((u as int / 1000) as i64);
}

/// A step of a fixed length cuts time into intervals of that length from the epoch: a moment lies
/// in the interval its bucket numbers, from the bucket times the length up to the next one.
pub proof fn law_fixed_buckets_are_intervals(ms: i64, t: i64)
    requires
        ms > 0,
    ensures
        bucket_spec(Unit::Fixed(ms), t) * ms <= t < (bucket_spec(Unit::Fixed(ms), t) + 1) * ms,
{
    let b = bucket_spec(Unit::Fixed(ms), t);
    assert(b * ms <= t < (b + 1) * ms) by (nonlinear_arith)
        requires
            ms > 0,
            b == t as int / ms as int,
    ;
}

} // verus!
