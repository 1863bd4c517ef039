//! What only the system clock and the local time zone can tell, read through
//! chrono, and chrono's parsers of date and time text.
use chrono::{Datelike, TimeZone, Timelike};
use vstd::prelude::*;

use crate::time::{days_in_month, valid_offset, CivilDateTime, LocalTime, MAX_YEAR, MIN_YEAR};

verus! {

/// What `chrono::NaiveDateTime::parse_from_str` yields for a text and a
/// pattern: year, month, day, hour, minute and second.
pub uninterp spec fn parsed_datetime(text: Seq<char>, pattern: Seq<char>) -> Option<
    (i32, u32, u32, u32, u32, u32),
>;

/// What `chrono::NaiveDate::parse_from_str` yields for a text and a pattern:
/// year, month and day.
pub uninterp spec fn parsed_date(text: Seq<char>, pattern: Seq<char>) -> Option<(i32, u32, u32)>;

/// Relies on `chrono::Local::now`: the current instant and the local zone's
/// offset at it. chrono keeps every instant within years -262143 to 262142
/// and every offset under one day.
#[verifier::external_body]
pub fn current_time() -> (r: LocalTime)
    ensures
        r.wf(),
{
    let now = chrono::Local::now();
    LocalTime { timestamp: now.timestamp(), offset: now.offset().local_minus_utc() }
}

/// Relies on `chrono::NaiveDate::from_ymd_opt`, `NaiveDate::and_hms_opt`
/// and `chrono::Local::offset_from_utc_datetime`: the local zone's offset at
/// the instant that `c` names in UTC. chrono builds the date and time for
/// every real one, and the zone answers for every such instant.
#[verifier::external_body]
pub fn offset_at_utc(c: CivilDateTime) -> (r: Option<i32>)
    ensures
        c.is_real() ==> r is Some,
        r matches Some(o) ==> valid_offset(o as int),
{
    let naive = chrono::NaiveDate::from_ymd_opt(c.year, c.month, c.day)?
        .and_hms_opt(c.hour, c.minute, c.second)?;
    Some(chrono::Local.offset_from_utc_datetime(&naive).local_minus_utc())
}

/// Relies on `chrono::NaiveDate::from_ymd_opt`, `NaiveDate::and_hms_opt` and
/// `chrono::Local::offset_from_local_datetime`: the local zone's offset for a
/// wall-clock reading, or `None` where the reading names no instant or two
/// (a daylight-saving gap or overlap) or no valid date.
#[verifier::external_body]
pub fn offset_for_wall_clock(c: CivilDateTime) -> (r: Option<i32>)
    ensures
        r matches Some(o) ==> valid_offset(o as int),
{
    let naive = chrono::NaiveDate::from_ymd_opt(c.year, c.month, c.day)?
        .and_hms_opt(c.hour, c.minute, c.second)?;
    chrono::Local.offset_from_local_datetime(&naive).single().map(|o| o.local_minus_utc())
}

/// Relies on `chrono::NaiveDateTime::parse_from_str`; what chrono yields is
/// a real date (years -262143 to 262142) and a time of day.
#[verifier::external_body]
pub fn parse_naive_datetime(text: &str, pattern: &str) -> (r: Option<(i32, u32, u32, u32, u32, u32)>)
    ensures
        r == parsed_datetime(text@, pattern@),
        r matches Some(t) ==> MIN_YEAR <= t.0 <= MAX_YEAR && 1 <= t.1 <= 12 && 1 <= t.2
            <= days_in_month(t.0 as int, t.1 as int) && t.3 < 24 && t.4 < 60 && t.5 < 60,
{
    chrono::NaiveDateTime::parse_from_str(text, pattern)
        .ok()
        .map(|t| (t.year(), t.month(), t.day(), t.hour(), t.minute(), t.second()))
}

/// Relies on `chrono::NaiveDate::parse_from_str`; what chrono yields is a
/// real date (years -262143 to 262142).
#[verifier::external_body]
pub fn parse_naive_date(text: &str, pattern: &str) -> (r: Option<(i32, u32, u32)>)
    ensures
        r == parsed_date(text@, pattern@),
        r matches Some(t) ==> MIN_YEAR <= t.0 <= MAX_YEAR && 1 <= t.1 <= 12 && 1 <= t.2
            <= days_in_month(t.0 as int, t.1 as int),
{
    chrono::NaiveDate::parse_from_str(text, pattern).ok().map(|d| (d.year(), d.month(), d.day()))
}

} // verus!
