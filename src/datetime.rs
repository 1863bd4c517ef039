//! The date/time normalizer: a property value in one of three encodings,
//! tried in a fixed order, becomes a point in time in the local zone.
use vstd::prelude::*;

use crate::clock::{
    offset_at_utc, offset_for_wall_clock, parse_naive_date, parse_naive_datetime, parsed_date,
    parsed_datetime,
};
use crate::time::{civil_seconds, valid_offset, CivilDateTime, LocalTime};

verus! {

/// A date/time value whose encoding has been recognised, before the local
/// zone is consulted.
#[derive(Clone, Copy, Debug, PartialEq, Eq, Structural)]
pub enum TimeValue {
    /// `YYYYMMDDTHHMMSSZ`: a UTC instant.
    Utc(CivilDateTime),
    /// `YYYYMMDDTHHMMSS`: a local wall-clock reading.
    Local(CivilDateTime),
    /// `YYYYMMDD`: local midnight of an all-day date.
    Date(CivilDateTime),
}

pub open spec fn utc_pattern() -> Seq<char> {
    "%Y%m%dT%H%M%SZ"@
}

pub open spec fn local_pattern() -> Seq<char> {
    "%Y%m%dT%H%M%S"@
}

pub open spec fn date_pattern() -> Seq<char> {
    "%Y%m%d"@
}

pub open spec fn civil_of(t: (i32, u32, u32, u32, u32, u32)) -> CivilDateTime {
    CivilDateTime { year: t.0, month: t.1, day: t.2, hour: t.3, minute: t.4, second: t.5 }
}

pub open spec fn midnight_of(d: (i32, u32, u32)) -> CivilDateTime {
    CivilDateTime { year: d.0, month: d.1, day: d.2, hour: 0, minute: 0, second: 0 }
}

/// Which encoding a value has, trying the UTC form, then the local form, then
/// the date-only form; the first that parses wins.
pub open spec fn time_value_of(s: Seq<char>) -> Option<TimeValue> {
    if s.len() > 0 && s.last() == 'Z' && parsed_datetime(s, utc_pattern()) is Some {
        Some(TimeValue::Utc(civil_of(parsed_datetime(s, utc_pattern())->0)))
    } else if s.contains('T') && parsed_datetime(s, local_pattern()) is Some {
        Some(TimeValue::Local(civil_of(parsed_datetime(s, local_pattern())->0)))
    } else if parsed_date(s, date_pattern()) is Some {
        Some(TimeValue::Date(midnight_of(parsed_date(s, date_pattern())->0)))
    } else {
        None
    }
}

impl TimeValue {
    pub open spec fn civil(self) -> CivilDateTime {
        match self {
            TimeValue::Utc(c) => c,
            TimeValue::Local(c) => c,
            TimeValue::Date(c) => c,
        }
    }

    /// Valid date and time fields; a date-only value stands at midnight.
    pub open spec fn wf(self) -> bool {
        &&& self.civil().is_real()
        &&& self matches TimeValue::Date(c) ==> c.hour == 0 && c.minute == 0 && c.second == 0
    }

    /// The point in time this value denotes, given what the local zone says
    /// of it: its offset at the UTC instant (UTC form) or for the wall-clock
    /// reading (other forms). A wall-clock reading the zone cannot map to a
    /// single instant stands for `now`.
    pub open spec fn resolve(self, zone: Option<i32>, now: LocalTime) -> Option<LocalTime> {
        match self {
            TimeValue::Utc(c) => match zone {
                Some(o) => Some(LocalTime { timestamp: c.seconds() as i64, offset: o }),
                None => None,
            },
            _ => match zone {
                Some(o) => Some(
                    LocalTime { timestamp: (self.civil().seconds() - o) as i64, offset: o },
                ),
                None => Some(now),
            },
        }
    }
}

/// Whether `c` occurs in `s`; exact for `Seq::contains`.
fn has_char(s: &str, c: char) -> (r: bool)
    ensures
        r == s@.contains(c),
{
    let n = s.unicode_len();
    let mut i: usize = 0;
    while i < n
        invariant
            n == s@.len(),
            i <= n,
            forall|j: int| 0 <= j < i ==> s@[j] != c,
        decreases n - i,
    {
        if s.get_char(i) == c {
            return true;
        }
        i += 1;
    }
    false
}

/// Recognises the encoding of a property value.
pub fn classify_time_value(s: &str) -> (r: Option<TimeValue>)
    ensures
        r == time_value_of(s@),
        r matches Some(v) ==> v.wf(),
{
    let n = s.unicode_len();
    if n > 0 && s.get_char(n - 1) == 'Z' {
        if let Some(t) = parse_naive_datetime(s, "%Y%m%dT%H%M%SZ") {
            return Some(
                TimeValue::Utc(
                    CivilDateTime {
                        year: t.0,
                        month: t.1,
                        day: t.2,
                        hour: t.3,
                        minute: t.4,
                        second: t.5,
                    },
                ),
            );
        }
    }
    if has_char(s, 'T') {
        if let Some(t) = parse_naive_datetime(s, "%Y%m%dT%H%M%S") {
            return Some(
                TimeValue::Local(
                    CivilDateTime {
                        year: t.0,
                        month: t.1,
                        day: t.2,
                        hour: t.3,
                        minute: t.4,
                        second: t.5,
                    },
                ),
            );
        }
    }
    if let Some(d) = parse_naive_date(s, "%Y%m%d") {
        return Some(
            TimeValue::Date(
                CivilDateTime { year: d.0, month: d.1, day: d.2, hour: 0, minute: 0, second: 0 },
            ),
        );
    }
    None
}

/// The point in time a recognised value denotes, given the zone's answer for
/// it (see `TimeValue::resolve`).
pub fn resolve_time_value(v: TimeValue, zone: Option<i32>, now: LocalTime) -> (r: Option<
    LocalTime,
>)
    requires
        v.wf(),
        now.wf(),
        zone matches Some(o) ==> valid_offset(o as int),
    ensures
        r == v.resolve(zone, now),
        r matches Some(t) ==> t.wf(),
{
    match v {
        TimeValue::Utc(c) => match zone {
            Some(o) => Some(LocalTime { timestamp: civil_seconds(c), offset: o }),
            None => None,
        },
        TimeValue::Local(c) | TimeValue::Date(c) => match zone {
            Some(o) => Some(LocalTime { timestamp: civil_seconds(c) - o as i64, offset: o }),
            None => Some(now),
        },
    }
}

/// An answer the local zone can give about `v`: an offset under a day, or
/// none, which only a wall-clock reading can get.
pub open spec fn zone_answer_ok(v: TimeValue, zone: Option<i32>) -> bool {
    &&& zone matches Some(o) ==> valid_offset(o as int)
    &&& v is Utc ==> zone is Some
}

/// Asks the local zone about a recognised value: its offset at the UTC
/// instant, or for the wall-clock reading.
pub fn zone_for(v: TimeValue) -> (r: Option<i32>)
    requires
        v.wf(),
    ensures
        zone_answer_ok(v, r),
{
    match v {
        TimeValue::Utc(c) => offset_at_utc(c),
        TimeValue::Local(c) | TimeValue::Date(c) => offset_for_wall_clock(c),
    }
}

/// Normalizes a date/time property value to a point in the local zone, or
/// `None` where no encoding matches.
pub fn parse_datetime_property(value: &str, now: LocalTime) -> (r: Option<LocalTime>)
    requires
        now.wf(),
    ensures
        time_value_of(value@) is None <==> r is None,
        time_value_of(value@) matches Some(v) ==> exists|zone: Option<i32>|
            zone_answer_ok(v, zone) && r == #[trigger] v.resolve(zone, now),
        r matches Some(t) ==> t.wf(),
{
    match classify_time_value(value) {
        None => None,
        Some(v) => resolve_time_value(v, zone_for(v), now),
    }
}


/// Normalization keeps what each encoding states: a UTC value keeps its
/// instant (its local wall clock is shifted by the zone's offset), while a
/// local or date-only value keeps its wall-clock reading (midnight for a
/// date), whatever the offset.
pub proof fn lemma_normalization_round_trip(v: TimeValue, offset: i32, now: LocalTime)
    requires
        v.wf(),
        valid_offset(offset as int),
    ensures
        v.resolve(Some(offset), now) matches Some(t) && t.offset == offset && match v {
            TimeValue::Utc(c) => t.timestamp == c.seconds() && t.wall_seconds() == c.seconds()
                + offset,
            TimeValue::Local(c) => t.wall_seconds() == c.seconds(),
            TimeValue::Date(c) => t.wall_seconds() == c.seconds() && c.hour == 0 && c.minute == 0
                && c.second == 0,
        },
{
}

} // verus!
