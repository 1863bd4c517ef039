//! Calendar events and their extraction from parsed components.
use vstd::prelude::*;

use crate::clock::current_time;
use crate::datetime::{classify_time_value, time_value_of, TimeValue};
use crate::ical::{components_view, ComponentView, IcsComponent, IcsProperty, PropertyView};
use crate::time::{minutes_between, text_from_chars, LocalTime};

verus! {

/// One calendar occurrence.
#[derive(Clone, Debug)]
pub struct CalendarEvent {
    /// Name/title of the event
    pub name: String,
    /// Event start time (in local time)
    pub start_time: LocalTime,
    /// Event end time (in local time)
    pub end_time: LocalTime,
    /// Event duration in whole minutes; negative where the end precedes the start
    pub duration_minutes: i64,
    /// Optional location of the event
    pub location: Option<String>,
    /// Optional description of the event
    pub description: Option<String>,
}

/// An event as plain values.
pub struct EventView {
    pub name: Seq<char>,
    pub start_time: LocalTime,
    pub end_time: LocalTime,
    pub duration_minutes: int,
    pub location: Option<Seq<char>>,
    pub description: Option<Seq<char>>,
}

pub open spec fn text_view(o: Option<String>) -> Option<Seq<char>> {
    match o {
        Some(s) => Some(s@),
        None => None,
    }
}

impl View for CalendarEvent {
    type V = EventView;

    open spec fn view(&self) -> EventView {
        EventView {
            name: self.name@,
            start_time: self.start_time,
            end_time: self.end_time,
            duration_minutes: self.duration_minutes as int,
            location: text_view(self.location),
            description: text_view(self.description),
        }
    }
}

pub open spec fn events_view(es: Seq<CalendarEvent>) -> Seq<EventView> {
    es.map_values(|e: CalendarEvent| e@)
}

impl EventView {
    pub open spec fn wf(self) -> bool {
        self.start_time.wf() && self.end_time.wf()
    }

    /// Ongoing at `now`: started and not yet ended.
    pub open spec fn is_current_at(self, now: LocalTime) -> bool {
        self.start_time.timestamp <= now.timestamp < self.end_time.timestamp
    }

    /// Starting strictly after `now`.
    pub open spec fn is_future_at(self, now: LocalTime) -> bool {
        now.timestamp < self.start_time.timestamp
    }

    /// Not yet ended at `now`.
    pub open spec fn is_unfinished_at(self, now: LocalTime) -> bool {
        now.timestamp < self.end_time.timestamp
    }

    /// The time range as `HH:MM - HH:MM` in local time.
    pub open spec fn time_range_view(self) -> Seq<char> {
        self.start_time.clock_view() + seq![' ', '-', ' '] + self.end_time.clock_view()
    }
}

impl CalendarEvent {
    /// Creates an event; its duration is derived from the two times.
    pub fn new(
        name: String,
        start_time: LocalTime,
        end_time: LocalTime,
        location: Option<String>,
        description: Option<String>,
    ) -> (r: Self)
        requires
            start_time.wf(),
            end_time.wf(),
        ensures
            r.name == name,
            r.start_time == start_time,
            r.end_time == end_time,
            r.duration_minutes == minutes_between(start_time, end_time),
            r.location == location,
            r.description == description,
    {
        let duration_minutes = start_time.minutes_until(&end_time);
        CalendarEvent { name, start_time, end_time, duration_minutes, location, description }
    }

    /// The time range in local time, e.g. `09:00 - 10:30`.
    pub fn format_time_range(&self) -> (r: String)
        requires
            self@.wf(),
        ensures
            r@ == self@.time_range_view(),
    {
        let mut out = self.start_time.clock_text();
        out.push(' ');
        out.push('-');
        out.push(' ');
        let mut end = self.end_time.clock_text();
        out.append(&mut end);
        assert(out@ =~= self@.time_range_view());
        text_from_chars(&out)
    }

    /// Whether the event is ongoing at `now`.
    pub fn is_current_at(&self, now: &LocalTime) -> (r: bool)
        ensures
            r == self@.is_current_at(*now),
    {
        self.start_time.timestamp <= now.timestamp && now.timestamp < self.end_time.timestamp
    }

    /// Whether the event starts strictly after `now`.
    pub fn is_future_at(&self, now: &LocalTime) -> (r: bool)
        ensures
            r == self@.is_future_at(*now),
    {
        now.timestamp < self.start_time.timestamp
    }

    /// Whether the event is ongoing, by the clock at the time of the call.
    pub fn is_current(&self) -> (r: bool)
        ensures
            exists|now: LocalTime| now.wf() && r == self@.is_current_at(now),
    {
        let now = current_time();
        self.is_current_at(&now)
    }

    /// Whether the event is still to start, by the clock at the time of the call.
    pub fn is_future(&self) -> (r: bool)
        ensures
            exists|now: LocalTime| now.wf() && r == self@.is_future_at(now),
    {
        let now = current_time();
        self.is_future_at(&now)
    }
}


/// The fields an event is made from, as found in one component, with its
/// times recognised but not yet placed in the local zone.
pub struct EventDraft {
    pub name: String,
    pub start: TimeValue,
    pub end: TimeValue,
    pub location: Option<String>,
    pub description: Option<String>,
}

pub struct DraftView {
    pub name: Seq<char>,
    pub start: TimeValue,
    pub end: TimeValue,
    pub location: Option<Seq<char>>,
    pub description: Option<Seq<char>>,
}

impl View for EventDraft {
    type V = DraftView;

    open spec fn view(&self) -> DraftView {
        DraftView {
            name: self.name@,
            start: self.start,
            end: self.end,
            location: text_view(self.location),
            description: text_view(self.description),
        }
    }
}

pub open spec fn drafts_view(ds: Seq<EventDraft>) -> Seq<DraftView> {
    ds.map_values(|d: EventDraft| d@)
}

/// The value of the first property named `key`; later ones are ignored.
pub open spec fn first_value(props: Seq<PropertyView>, key: Seq<char>) -> Option<Seq<char>>
    decreases props.len(),
{
    if props.len() == 0 {
        None
    } else {
        match first_value(props.drop_last(), key) {
            Some(v) => Some(v),
            None => if props.last().0 == key {
                Some(props.last().1)
            } else {
                None
            },
        }
    }
}

/// The draft an event component yields: it must be named `VEVENT` and hold a
/// title (`SUMMARY`), a start (`DTSTART`) and an end (`DTEND`) whose values
/// are recognised date/time encodings.
pub open spec fn draft_of(c: ComponentView) -> Option<DraftView> {
    let props = c.1;
    if c.0 != "VEVENT"@ {
        None
    } else {
        match (first_value(props, "SUMMARY"@), first_value(props, "DTSTART"@), first_value(props, "DTEND"@)) {
            (Some(name), Some(start), Some(end)) => match (time_value_of(start), time_value_of(end)) {
                (Some(s), Some(e)) => Some(
                    DraftView {
                        name,
                        start: s,
                        end: e,
                        location: first_value(props, "LOCATION"@),
                        description: first_value(props, "DESCRIPTION"@),
                    },
                ),
                _ => None,
            },
            _ => None,
        }
    }
}

/// The drafts of a component sequence, in order; components that yield none
/// are left out.
pub open spec fn drafts_of(cs: Seq<ComponentView>) -> Seq<DraftView>
    decreases cs.len(),
{
    if cs.len() == 0 {
        Seq::empty()
    } else {
        match draft_of(cs.last()) {
            Some(d) => drafts_of(cs.drop_last()).push(d),
            None => drafts_of(cs.drop_last()),
        }
    }
}

/// A component that yields no draft, such as an event without an end
/// (`DTEND`), leaves the drafts of a document as they would be without it.
pub proof fn lemma_dropped_component(cs: Seq<ComponentView>, i: int)
    requires
        0 <= i < cs.len(),
        draft_of(cs[i]) is None,
    ensures
        drafts_of(cs) == drafts_of(cs.remove(i)),
    decreases cs.len(),
{
    if i == cs.len() - 1 {
        assert(cs.remove(i) =~= cs.drop_last());
    } else {
        lemma_dropped_component(cs.drop_last(), i);
        assert(cs.remove(i).drop_last() =~= cs.drop_last().remove(i));
        assert(cs.remove(i).last() == cs.last());
    }
}

/// An event component without an end (`DTEND`) yields no draft.
pub proof fn lemma_event_without_end(c: ComponentView)
    requires
        first_value(c.1, "DTEND"@) is None,
    ensures
        draft_of(c) is None,
{
}

/// Whether two texts are the same.
pub fn same_text(a: &str, b: &str) -> (r: bool)
    ensures
        r == (a@ == b@),
{
    let n = a.unicode_len();
    if n != b.unicode_len() {
        return false;
    }
    let mut i: usize = 0;
    while i < n
        invariant
            n == a@.len(),
            n == b@.len(),
            i <= n,
            forall|j: int| 0 <= j < i ==> a@[j] == b@[j],
        decreases n - i,
    {
        if a.get_char(i) != b.get_char(i) {
            return false;
        }
        i += 1;
    }
    assert(a@ =~= b@);
    true
}

/// The value of the first property named `key`.
fn first_value_of(props: &Vec<IcsProperty>, key: &str) -> (r: Option<String>)
    ensures
        text_view(r) == first_value(props@.map_values(|p: IcsProperty| p@), key@),
{
    let ghost pv = props@.map_values(|p: IcsProperty| p@);
    let mut i: usize = 0;
    while i < props.len()
        invariant
            i <= props.len(),
            pv == props@.map_values(|p: IcsProperty| p@),
            first_value(pv.take(i as int), key@) is None,
        decreases props.len() - i,
    {
        assert(pv.take(i + 1).drop_last() =~= pv.take(i as int));
        if same_text(props[i].name.as_str(), key) {
            let v = props[i].value.clone();
            proof {
                lemma_first_value_prefix(pv, key@, i + 1);
            }
            return Some(v);
        }
        i += 1;
    }
    assert(pv.take(i as int) =~= pv);
    None
}

/// A match found in a prefix is the match of the whole sequence.
proof fn lemma_first_value_prefix(props: Seq<PropertyView>, key: Seq<char>, k: int)
    requires
        0 <= k <= props.len(),
        first_value(props.take(k), key) is Some,
    ensures
        first_value(props, key) == first_value(props.take(k), key),
    decreases props.len() - k,
{
    if k < props.len() {
        assert(props.take(k + 1).drop_last() =~= props.take(k));
        lemma_first_value_prefix(props, key, k + 1);
    } else {
        assert(props.take(k) =~= props);
    }
}


/// The draft a component yields, if any (see `draft_of`).
pub fn draft_from_component(c: &IcsComponent) -> (r: Option<EventDraft>)
    ensures
        match r {
            Some(d) => draft_of(c@) == Some(d@) && d.start.wf() && d.end.wf(),
            None => draft_of(c@) is None,
        },
{
    let ghost props = c.properties@.map_values(|p: IcsProperty| p@);
    if !same_text(c.name.as_str(), "VEVENT") {
        return None;
    }
    let name = first_value_of(&c.properties, "SUMMARY");
    let start = first_value_of(&c.properties, "DTSTART");
    let end = first_value_of(&c.properties, "DTEND");
    match (name, start, end) {
        (Some(name), Some(start), Some(end)) => {
            match (classify_time_value(start.as_str()), classify_time_value(end.as_str())) {
                (Some(s), Some(e)) => {
                    let location = first_value_of(&c.properties, "LOCATION");
                    let description = first_value_of(&c.properties, "DESCRIPTION");
                    let d = EventDraft { name, start: s, end: e, location, description };
                    assert(draft_of(c@) == Some(d@));
                    Some(d)
                },
                _ => None,
            }
        },
        _ => None,
    }
}

/// The drafts of all components, in order (see `drafts_of`).
pub fn collect_drafts(cs: &Vec<IcsComponent>) -> (r: Vec<EventDraft>)
    ensures
        drafts_view(r@) == drafts_of(components_view(cs@)),
        forall|i: int| 0 <= i < r@.len() ==> (#[trigger] r@[i]).start.wf() && r@[i].end.wf(),
{
    let ghost cv = components_view(cs@);
    let mut out: Vec<EventDraft> = Vec::new();
    let mut i: usize = 0;
    while i < cs.len()
        invariant
            i <= cs.len(),
            cv == components_view(cs@),
            drafts_view(out@) == drafts_of(cv.take(i as int)),
            forall|j: int| 0 <= j < out@.len() ==> (#[trigger] out@[j]).start.wf() && out@[j].end.wf(),
        decreases cs.len() - i,
    {
        assert(cv.take(i + 1).drop_last() =~= cv.take(i as int));
        assert(cv.take(i + 1).last() == cs@[i as int]@);
        match draft_from_component(&cs[i]) {
            Some(d) => {
                let ghost before = out@;
                out.push(d);
                assert(drafts_view(out@) =~= drafts_view(before).push(d@));
            },
            None => {},
        }
        i += 1;
    }
    assert(cv.take(i as int) =~= cv);
    out
}

} // verus!
