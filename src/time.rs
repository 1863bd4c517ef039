//! Points in time as the calendar sees them: an instant together with the
//! offset of the local zone at that instant.
use vstd::arithmetic::div_mod::{lemma_hoist_over_denominator, lemma_mod_multiples_vanish};
use vstd::prelude::*;

verus! {

/// Seconds in one day.
pub const SECONDS_PER_DAY: i64 = 86400;

/// Bound on the magnitude of every instant the library handles, in seconds
/// from the Unix epoch. It covers every date of years -262143 to 262143.
pub const INSTANT_LIMIT: i64 = 10_000_000_000_000;

/// Bound on the magnitude of a year the library converts.
pub const YEAR_LIMIT: i32 = 262143;

/// The earliest year chrono represents.
pub const MIN_YEAR: i32 = -262143;

/// The latest year chrono represents.
pub const MAX_YEAR: i32 = 262142;

/// A point in time, seen from the local zone: the instant in seconds since
/// the Unix epoch (UTC) and the local zone's offset east of UTC at that
/// instant, in seconds.
#[derive(Clone, Copy, Debug, PartialEq, Eq, Structural)]
pub struct LocalTime {
    pub timestamp: i64,
    pub offset: i32,
}

/// A calendar date and a wall-clock time, without a zone.
#[derive(Clone, Copy, Debug, PartialEq, Eq, Structural)]
pub struct CivilDateTime {
    pub year: i32,
    pub month: u32,
    pub day: u32,
    pub hour: u32,
    pub minute: u32,
    pub second: u32,
}

/// An offset from UTC that a zone can have: strictly less than one day.
pub open spec fn valid_offset(offset: int) -> bool {
    -SECONDS_PER_DAY < offset < SECONDS_PER_DAY
}

impl LocalTime {
    pub open spec fn wf(self) -> bool {
        &&& -INSTANT_LIMIT <= self.timestamp <= INSTANT_LIMIT
        &&& valid_offset(self.offset as int)
    }

    /// Seconds since the epoch as a wall clock in the local zone reads them.
    pub open spec fn wall_seconds(self) -> int {
        self.timestamp + self.offset
    }

    /// Seconds since local midnight.
    pub open spec fn second_of_day(self) -> int {
        self.wall_seconds() % SECONDS_PER_DAY as int
    }

    /// The local wall-clock time as `HH:MM`.
    pub open spec fn clock_view(self) -> Seq<char> {
        two_digits(self.second_of_day() / 3600) + seq![':'] + two_digits(
            (self.second_of_day() % 3600) / 60,
        )
    }
}

/// Decimal digits, indexed by their value.
pub open spec fn digits() -> Seq<char> {
    "0123456789"@
}

/// A number below 100 written with two decimal digits.
pub open spec fn two_digits(n: int) -> Seq<char> {
    seq![digits()[n / 10], digits()[n % 10]]
}

/// Whole minutes from `a` to `b`, truncated toward zero.
pub open spec fn minutes_between(a: LocalTime, b: LocalTime) -> int {
    let d = b.timestamp - a.timestamp;
    if d >= 0 {
        d / 60
    } else {
        -((-d) / 60)
    }
}

impl CivilDateTime {
    pub open spec fn wf(self) -> bool {
        &&& -YEAR_LIMIT <= self.year <= YEAR_LIMIT
        &&& 1 <= self.month <= 12
        &&& 1 <= self.day <= 31
        &&& self.hour < 24
        &&& self.minute < 60
        &&& self.second < 60
    }

    /// A date and time that exists on the calendar: year within chrono's
    /// range, day within its month, and a wall-clock time of day.
    pub open spec fn is_real(self) -> bool {
        &&& MIN_YEAR <= self.year <= MAX_YEAR
        &&& 1 <= self.month <= 12
        &&& 1 <= self.day <= days_in_month(self.year as int, self.month as int)
        &&& self.hour < 24
        &&& self.minute < 60
        &&& self.second < 60
    }

    /// Seconds from 1970-01-01 00:00:00 to this date and time, on a clock
    /// without a zone (proleptic Gregorian calendar).
    pub open spec fn seconds(self) -> int {
        days_from_civil(self.year as int, self.month as int, self.day as int) * SECONDS_PER_DAY
            + self.hour * 3600 + self.minute * 60 + self.second
    }
}

pub open spec fn is_leap_year(y: int) -> bool {
    (y % 4 == 0 && y % 100 != 0) || y % 400 == 0
}

/// Days in month m (1 to 12) of year y.
pub open spec fn days_in_month(y: int, m: int) -> int {
    if m == 2 {
        if is_leap_year(y) {
            29
        } else {
            28
        }
    } else if m == 4 || m == 6 || m == 9 || m == 11 {
        30
    } else {
        31
    }
}

/// Leap years among the years 1 to y - 1 (counted negatively below year 1).
pub open spec fn leap_years_before(y: int) -> int {
    (y - 1) / 4 - (y - 1) / 100 + (y - 1) / 400
}

/// Days from 1 January of year 0 to 1 January of year y.
pub open spec fn days_before_year(y: int) -> int {
    365 * y + leap_years_before(y) + 1
}

/// Days in the months of a year before month m (1 to 12).
pub open spec fn days_before_month(m: int, leap: bool) -> int {
    let common: int = if m == 1 { 0 } else if m == 2 { 31 } else if m == 3 { 59 } else if m == 4 {
        90
    } else if m == 5 { 120 } else if m == 6 { 151 } else if m == 7 { 181 } else if m == 8 {
        212
    } else if m == 9 { 243 } else if m == 10 { 273 } else if m == 11 { 304 } else { 334 };
    if leap && m > 2 { common + 1 } else { common }
}

/// Days from 1970-01-01 to the given date.
pub open spec fn days_from_civil(y: int, m: int, d: int) -> int {
    days_before_year(y) - days_before_year(1970) + days_before_month(m, is_leap_year(y)) + d - 1
}


/// Whole days before month `m` in a year; exact for `days_before_month`.
fn month_offset(m: u32, leap: bool) -> (r: i64)
    requires
        1 <= m <= 12,
    ensures
        r == days_before_month(m as int, leap),
        0 <= r <= 335,
{
    let common: i64 = if m == 1 { 0 } else if m == 2 { 31 } else if m == 3 { 59 } else if m == 4 {
        90
    } else if m == 5 { 120 } else if m == 6 { 151 } else if m == 7 { 181 } else if m == 8 {
        212
    } else if m == 9 { 243 } else if m == 10 { 273 } else if m == 11 { 304 } else { 334 };
    if leap && m > 2 { common + 1 } else { common }
}

/// Years added to a year before dividing, so that every division below works
/// on a positive number; a multiple of 400, so leap years fall alike.
const YEAR_SHIFT: i64 = 280000;

proof fn lemma_leap_years_shifted(y: int)
    requires
        -YEAR_LIMIT <= y <= YEAR_LIMIT,
    ensures
        (y + YEAR_SHIFT - 1) / 4 - (y + YEAR_SHIFT - 1) / 100 + (y + YEAR_SHIFT - 1) / 400 - 67900
            == leap_years_before(y),
        -70000 <= leap_years_before(y) <= 70000,
        is_leap_year(y) == is_leap_year(y + YEAR_SHIFT),
        days_before_year(1970) == 719528,
{
    lemma_mod_multiples_vanish(70000, y, 4);
    lemma_mod_multiples_vanish(2800, y, 100);
    lemma_mod_multiples_vanish(700, y, 400);
    lemma_hoist_over_denominator(y - 1, 70000, 4);
    lemma_hoist_over_denominator(y - 1, 2800, 100);
    lemma_hoist_over_denominator(y - 1, 700, 400);
}

/// Days from 1970-01-01 to a civil date.
fn days_since_epoch(y: i32, m: u32, d: u32) -> (r: i64)
    requires
        -YEAR_LIMIT <= y <= YEAR_LIMIT,
        1 <= m <= 12,
        1 <= d <= 31,
    ensures
        r == days_from_civil(y as int, m as int, d as int),
        -100_000_000 <= r <= 100_000_000,
{
    let y: i64 = y as i64;
    let shifted: i64 = y + YEAR_SHIFT - 1;
    proof {
        lemma_leap_years_shifted(y as int);
    }
    let leaps: i64 = shifted / 4 - shifted / 100 + shifted / 400 - 67900;
    let p: i64 = y + YEAR_SHIFT;
    let leap: bool = (p % 4 == 0 && p % 100 != 0) || p % 400 == 0;
    let days_y: i64 = 365 * y + leaps + 1 - 719528;
    days_y + month_offset(m, leap) + d as i64 - 1
}

/// Seconds from 1970-01-01 00:00:00 to a civil date and time.
pub fn civil_seconds(c: CivilDateTime) -> (r: i64)
    requires
        c.wf(),
    ensures
        r == c.seconds(),
        -INSTANT_LIMIT + SECONDS_PER_DAY <= r <= INSTANT_LIMIT - SECONDS_PER_DAY,
{
    let days = days_since_epoch(c.year, c.month, c.day);
    assert(-8_640_000_000_000 <= days * SECONDS_PER_DAY <= 8_640_000_000_000) by (nonlinear_arith)
        requires
            -100_000_000 <= days <= 100_000_000,
    ;
    days * SECONDS_PER_DAY + c.hour as i64 * 3600 + c.minute as i64 * 60 + c.second as i64
}

/// Relies on std's `FromIterator<char>` for `String`: the string holds the
/// characters in order.
#[verifier::external_body]
pub(crate) fn text_from_chars(chars: &Vec<char>) -> (r: String)
    ensures
        r@ == chars@,
{
    chars.iter().collect()
}

fn push_two_digits(out: &mut Vec<char>, n: i64)
    requires
        0 <= n < 100,
    ensures
        final(out)@ == old(out)@ + two_digits(n as int),
{
    let ds = "0123456789";
    proof {
        reveal_strlit("0123456789");
    }
    out.push(ds.get_char((n / 10) as usize));
    out.push(ds.get_char((n % 10) as usize));
}

impl LocalTime {
    /// Seconds since local midnight.
    pub fn seconds_into_day(&self) -> (r: i64)
        requires
            self.wf(),
        ensures
            r == self.second_of_day(),
            0 <= r < SECONDS_PER_DAY,
    {
        let wall: i64 = self.timestamp + self.offset as i64;
        proof {
            lemma_mod_multiples_vanish(200_000_000, wall as int, SECONDS_PER_DAY as int);
        }
        (wall + SECONDS_PER_DAY * 200_000_000) % SECONDS_PER_DAY
    }

    /// The local wall-clock time as `HH:MM`.
    pub fn clock_text(&self) -> (r: Vec<char>)
        requires
            self.wf(),
        ensures
            r@ == self.clock_view(),
    {
        let sod = self.seconds_into_day();
        let mut out: Vec<char> = Vec::new();
        push_two_digits(&mut out, sod / 3600);
        out.push(':');
        push_two_digits(&mut out, (sod % 3600) / 60);
        assert(out@ =~= self.clock_view());
        out
    }

    /// Whole minutes from `self` to `later`, truncated toward zero.
    pub fn minutes_until(&self, later: &LocalTime) -> (r: i64)
        requires
            self.wf(),
            later.wf(),
        ensures
            r == minutes_between(*self, *later),
    {
        let d: i64 = later.timestamp - self.timestamp;
        if d >= 0 {
            d / 60
        } else {
            -((-d) / 60)
        }
    }
}

} // verus!
