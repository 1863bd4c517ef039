//! The refresh-gated cache of a feed's events and the queries over it.
use vstd::prelude::*;

use crate::clock::current_time;
use crate::datetime::{resolve_time_value, zone_answer_ok, zone_for};
use crate::events::{
    first_value, lemma_dropped_component, lemma_event_without_end,
    collect_drafts, drafts_of, drafts_view, events_view, CalendarEvent, DraftView, EventDraft,
    EventView,
};
use crate::ical::{calendar_components, read_components, unfold_lines, unfolded};
use crate::order::{
    insert_by_start, insert_event, lemma_insert_sorted, sort_by_start, sorted_by_start,
    starts_no_later,
};
use crate::ical::ComponentView;
use crate::time::{minutes_between, LocalTime};

verus! {

/// Why a refresh failed.
#[derive(Debug, Clone)]
pub enum CalendarError {
    /// The feed could not be retrieved: transport failure or non-success status.
    FetchError(String),
    /// The document's structure could not be parsed.
    ParseError(String),
    /// Reserved for callers that treat an empty feed as a failure.
    NoEventsError,
}

impl CalendarError {
    /// The error's text.
    pub open spec fn message_spec(self) -> Seq<char> {
        match self {
            CalendarError::FetchError(m) => "Failed to fetch calendar: "@ + m@,
            CalendarError::ParseError(m) => "Failed to parse calendar: "@ + m@,
            CalendarError::NoEventsError => "No events found in calendar"@,
        }
    }

    /// The error's text.
    pub fn message(&self) -> (r: String)
        ensures
            r@ == self.message_spec(),
    {
        match self {
            CalendarError::FetchError(m) => {
                let mut r = String::from_str("Failed to fetch calendar: ");
                r.append(m.as_str());
                r
            },
            CalendarError::ParseError(m) => {
                let mut r = String::from_str("Failed to parse calendar: ");
                r.append(m.as_str());
                r
            },
            CalendarError::NoEventsError => String::from_str("No events found in calendar"),
        }
    }
}

/// The event a draft becomes once the zone has answered for its start
/// (`zs`) and its end (`ze`); none where a time cannot be placed.
pub open spec fn event_from_draft(
    d: DraftView,
    zs: Option<i32>,
    ze: Option<i32>,
    now: LocalTime,
) -> Option<EventView> {
    match (d.start.resolve(zs, now), d.end.resolve(ze, now)) {
        (Some(s), Some(e)) => Some(
            EventView {
                name: d.name,
                start_time: s,
                end_time: e,
                duration_minutes: minutes_between(s, e),
                location: d.location,
                description: d.description,
            },
        ),
        _ => None,
    }
}

/// The zone's answers for each draft's start and end.
pub type ZoneAnswers = Seq<(Option<i32>, Option<i32>)>;

pub open spec fn zones_fit(ds: Seq<DraftView>, zones: ZoneAnswers) -> bool {
    &&& zones.len() == ds.len()
    &&& forall|i: int|
        0 <= i < ds.len() ==> zone_answer_ok(ds[i].start, #[trigger] zones[i].0)
            && zone_answer_ok(ds[i].end, zones[i].1)
}

/// The events of a draft sequence, in order, given the zone's answers.
pub open spec fn events_from_drafts(ds: Seq<DraftView>, zones: ZoneAnswers, now: LocalTime) -> Seq<
    EventView,
>
    decreases ds.len(),
{
    if ds.len() == 0 || zones.len() != ds.len() {
        Seq::empty()
    } else {
        let rest = events_from_drafts(ds.drop_last(), zones.drop_last(), now);
        match event_from_draft(ds.last(), zones.last().0, zones.last().1, now) {
            Some(e) => rest.push(e),
            None => rest,
        }
    }
}

/// The event drafts of a calendar document: unfolded, split into
/// components, and the event components' fields picked out. `None` where
/// the document's structure cannot be parsed.
pub open spec fn document_drafts(text: Seq<char>) -> Option<Seq<DraftView>> {
    match calendar_components(unfolded(text)) {
        Some(cs) => Some(drafts_of(cs)),
        None => None,
    }
}

/// Unfolds a calendar document, parses its structure and picks out the
/// fields of its event components (see `document_drafts`).
pub fn parse_document(text: &str) -> (r: Result<Vec<EventDraft>, CalendarError>)
    ensures
        match document_drafts(text@) {
            None => r matches Err(CalendarError::ParseError(_)),
            Some(ds) => r matches Ok(v) && drafts_view(v@) == ds && forall|i: int|
                0 <= i < v@.len() ==> (#[trigger] v@[i]).start.wf() && v@[i].end.wf(),
        },
{
    let unfolded_text = unfold_lines(text);
    let components = match read_components(unfolded_text.as_str()) {
        Ok(cs) => cs,
        Err(m) => {
            return Err(CalendarError::ParseError(m));
        },
    };
    Ok(collect_drafts(&components))
}

/// Parsing is a function of the text alone: two parses of one document
/// yield the same event drafts, element by element.
pub proof fn lemma_parse_idempotent(text: Seq<char>, first: Seq<DraftView>, second: Seq<DraftView>)
    requires
        document_drafts(text) == Some(first),
        document_drafts(text) == Some(second),
    ensures
        first.len() == second.len(),
        forall|i: int| 0 <= i < first.len() ==> first[i] == second[i],
{
}

/// A copy of an optional text.
fn copy_text(t: &Option<String>) -> (r: Option<String>)
    ensures
        r == *t,
{
    match t {
        Some(s) => Some(s.clone()),
        None => None,
    }
}

/// The event a draft becomes, given the zone's answers (see `event_from_draft`).
pub fn build_event(d: &EventDraft, zs: Option<i32>, ze: Option<i32>, now: LocalTime) -> (r: Option<
    CalendarEvent,
>)
    requires
        d.start.wf(),
        d.end.wf(),
        now.wf(),
        zone_answer_ok(d.start, zs),
        zone_answer_ok(d.end, ze),
    ensures
        match r {
            Some(e) => event_from_draft(d@, zs, ze, now) == Some(e@) && e@.wf(),
            None => event_from_draft(d@, zs, ze, now) is None,
        },
{
    match (resolve_time_value(d.start, zs, now), resolve_time_value(d.end, ze, now)) {
        (Some(s), Some(e)) => {
            let ev = CalendarEvent::new(
                d.name.clone(),
                s,
                e,
                copy_text(&d.location),
                copy_text(&d.description),
            );
            Some(ev)
        },
        _ => None,
    }
}

/// The events of the drafts, placed in the local zone and sorted by start.
pub fn build_events(ds: &Vec<EventDraft>, now: LocalTime) -> (r: Vec<CalendarEvent>)
    requires
        now.wf(),
        forall|i: int| 0 <= i < ds@.len() ==> (#[trigger] ds@[i]).start.wf() && ds@[i].end.wf(),
    ensures
        exists|zones: ZoneAnswers|
            zones_fit(drafts_view(ds@), zones) && events_view(r@) == sort_by_start(
                #[trigger] events_from_drafts(drafts_view(ds@), zones, now),
            ),
        forall|i: int| 0 <= i < r@.len() ==> (#[trigger] r@[i])@.wf(),
        sorted_by_start(events_view(r@)),
{
    let ghost dv = drafts_view(ds@);
    let ghost mut zones: ZoneAnswers = Seq::empty();
    let mut out: Vec<CalendarEvent> = Vec::new();
    let mut i: usize = 0;
    while i < ds.len()
        invariant
            i <= ds.len(),
            now.wf(),
            dv == drafts_view(ds@),
            forall|k: int| 0 <= k < ds@.len() ==> (#[trigger] ds@[k]).start.wf() && ds@[k].end.wf(),
            zones_fit(dv.take(i as int), zones),
            events_view(out@) == sort_by_start(events_from_drafts(dv.take(i as int), zones, now)),
            forall|k: int| 0 <= k < out@.len() ==> (#[trigger] out@[k])@.wf(),
            sorted_by_start(events_view(out@)),
        decreases ds.len() - i,
    {
        let d = &ds[i];
        let zs = zone_for(d.start);
        let ze = zone_for(d.end);
        let ghost prev = events_from_drafts(dv.take(i as int), zones, now);
        proof {
            assert(dv.take(i + 1).drop_last() =~= dv.take(i as int));
            let old_zones = zones;
            zones = zones.push((zs, ze));
            assert(zones.drop_last() =~= old_zones);
            assert(dv.take(i + 1).last() == d@);
        }
        match build_event(d, zs, ze, now) {
            Some(e) => {
                let ghost before = events_view(out@);
                let ghost old_out = out@;
                proof {
                    lemma_insert_sorted(before, e@);
                    assert(events_from_drafts(dv.take(i + 1), zones, now) == prev.push(e@));
                    assert(prev.push(e@).drop_last() =~= prev);
                }
                insert_event(&mut out, e);
                assert forall|k: int| 0 <= k < out@.len() implies (#[trigger] out@[k])@.wf() by {
                    let x = out@[k]@;
                    assert(events_view(out@)[k] == x);
                    assert(insert_by_start(before, e@).contains(x));
                    if before.contains(x) {
                        let m = choose|m: int| 0 <= m < before.len() && before[m] == x;
                        assert(old_out[m]@ == x);
                    }
                }
            },
            None => {
                assert(events_from_drafts(dv.take(i + 1), zones, now) == prev);
            },
        }
        i += 1;
    }
    assert(dv.take(i as int) =~= dv);
    out
}


/// The cache of one feed: its configuration, its last successfully fetched
/// events (sorted by start time) and the time of that fetch.
#[derive(Debug, Clone)]
pub struct Calendar {
    /// URL of the calendar feed
    url: String,
    /// Last time the calendar was fetched successfully
    last_updated: Option<LocalTime>,
    /// Cached calendar events, ascending by start time
    events: Vec<CalendarEvent>,
    /// How often to refresh the calendar data (in minutes)
    refresh_interval_minutes: u64,
}

pub open spec fn found_view(r: Option<&CalendarEvent>) -> Option<EventView> {
    match r {
        Some(e) => Some(e@),
        None => None,
    }
}

/// A cache as plain values.
pub struct CalendarView {
    pub url: Seq<char>,
    pub last_updated: Option<LocalTime>,
    pub events: Seq<EventView>,
    pub refresh_interval_minutes: nat,
}

impl View for Calendar {
    type V = CalendarView;

    closed spec fn view(&self) -> CalendarView {
        CalendarView {
            url: self.url@,
            last_updated: self.last_updated,
            events: events_view(self.events@),
            refresh_interval_minutes: self.refresh_interval_minutes as nat,
        }
    }
}

impl CalendarView {
    /// Every event's times and the last fetch time are valid; events are
    /// ascending by start time.
    pub open spec fn wf(self) -> bool {
        &&& forall|i: int| 0 <= i < self.events.len() ==> (#[trigger] self.events[i]).wf()
        &&& sorted_by_start(self.events)
        &&& self.last_updated matches Some(t) ==> t.wf()
    }

    /// A refresh is due: never fetched, or the last fetch is at least the
    /// refresh interval old (in whole minutes).
    pub open spec fn is_stale_at(self, now: LocalTime) -> bool {
        match self.last_updated {
            None => true,
            Some(t) => minutes_between(t, now) >= self.refresh_interval_minutes,
        }
    }

    /// The cached events are those of the drafts `ds`, placed in the
    /// local zone at `now` by some answers of the zone, and sorted by start.
    pub open spec fn holds_events_of(self, ds: Seq<DraftView>, now: LocalTime) -> bool {
        exists|zones: ZoneAnswers|
            zones_fit(ds, zones) && self.events == sort_by_start(
                #[trigger] events_from_drafts(ds, zones, now),
            )
    }

    /// `r` is the first cached event that satisfies `p`, or `None` where no
    /// cached event does.
    pub open spec fn first_such(self, r: Option<EventView>, p: spec_fn(EventView) -> bool) -> bool {
        match r {
            Some(e) => exists|i: int|
                0 <= i < self.events.len() && #[trigger] self.events[i] == e && p(e) && forall|j: int|
                    0 <= j < i ==> !p(#[trigger] self.events[j]),
            None => forall|i: int| 0 <= i < self.events.len() ==> !p(#[trigger] self.events[i]),
        }
    }

    /// `r` is the first cached event ongoing at `now`, if any.
    pub open spec fn current_is(self, r: Option<EventView>, now: LocalTime) -> bool {
        self.first_such(r, |e: EventView| e.is_current_at(now))
    }

    /// `r` is the first cached event starting after `now`, if any.
    pub open spec fn next_is(self, r: Option<EventView>, now: LocalTime) -> bool {
        self.first_such(r, |e: EventView| e.is_future_at(now))
    }

    /// The events not yet ended at `now`, in cache order.
    pub open spec fn unfinished_at(self, now: LocalTime) -> Seq<EventView> {
        self.events.filter(|e: EventView| e.is_unfinished_at(now))
    }
}

impl Calendar {
    /// Creates a cache for the feed at `url`, with nothing fetched yet.
    pub fn new(url: String, refresh_interval_minutes: u64) -> (r: Self)
        ensures
            r@ == (CalendarView {
                url: url@,
                last_updated: None,
                events: Seq::empty(),
                refresh_interval_minutes: refresh_interval_minutes as nat,
            }),
            r@.wf(),
    {
        let r = Calendar { url, last_updated: None, events: Vec::new(), refresh_interval_minutes };
        assert(events_view(r.events@) =~= Seq::empty());
        r
    }

    /// The feed's URL.
    pub fn url(&self) -> (r: &String)
        ensures
            r@ == self@.url,
    {
        &self.url
    }

    /// The time of the last successful fetch.
    pub fn last_updated(&self) -> (r: Option<LocalTime>)
        ensures
            r == self@.last_updated,
    {
        self.last_updated
    }

    /// All cached events, ascending by start time.
    pub fn events(&self) -> (r: &Vec<CalendarEvent>)
        ensures
            events_view(r@) == self@.events,
    {
        &self.events
    }

    /// Whether a refresh is due at `now`.
    pub fn needs_refresh_at(&self, now: &LocalTime) -> (r: bool)
        requires
            self@.wf(),
            now.wf(),
        ensures
            r == self@.is_stale_at(*now),
    {
        match self.last_updated {
            None => true,
            Some(t) => t.minutes_until(now) >= 0 && t.minutes_until(now) as u64
                >= self.refresh_interval_minutes,
        }
    }

    /// Whether a refresh is due, by the clock at the time of the call.
    pub fn needs_refresh(&self) -> (r: bool)
        requires
            self@.wf(),
        ensures
            exists|now: LocalTime| now.wf() && r == self@.is_stale_at(now),
    {
        let now = current_time();
        self.needs_refresh_at(&now)
    }

    /// Takes the outcome of a fetch of the feed, completed at `now`. A
    /// fetched document is unfolded, parsed and its events extracted and
    /// sorted; on success they replace the cached events and `now` becomes
    /// the last fetch time, both at once. On any failure the cache is left
    /// exactly as it was.
    pub fn apply_feed(&mut self, fetched: Result<String, String>, now: LocalTime) -> (r: Result<
        (),
        CalendarError,
    >)
        requires
            old(self)@.wf(),
            now.wf(),
        ensures
            final(self)@.wf(),
            r is Err ==> final(self)@ == old(self)@,
            fetched matches Err(m) ==> r == Err::<(), CalendarError>(CalendarError::FetchError(m)),
            fetched matches Ok(text) ==> match document_drafts(text@) {
                None => r matches Err(CalendarError::ParseError(_)),
                Some(ds) => {
                    &&& r is Ok
                    &&& final(self)@.url == old(self)@.url
                    &&& final(self)@.refresh_interval_minutes == old(self)@.refresh_interval_minutes
                    &&& final(self)@.last_updated == Some(now)
                    &&& final(self)@.holds_events_of(ds, now)
                },
            },
    {
        let text = match fetched {
            Ok(text) => text,
            Err(m) => {
                return Err(CalendarError::FetchError(m));
            },
        };
        let drafts = parse_document(text.as_str())?;
        let events = build_events(&drafts, now);
        self.events = events;
        self.last_updated = Some(now);
        Ok(())
    }

    /// The first event, in cache order, that is ongoing at `now`. Since the
    /// cache is sorted, no ongoing event starts earlier than it.
    pub fn current_event_at(&self, now: &LocalTime) -> (r: Option<&CalendarEvent>)
        requires
            self@.wf(),
        ensures
            self@.current_is(found_view(r), *now),
            r matches Some(e) ==> forall|j: int|
                0 <= j < self@.events.len() && (#[trigger] self@.events[j]).is_current_at(*now)
                    ==> e@.start_time.timestamp <= self@.events[j].start_time.timestamp,
    {
        let ghost ev = self@.events;
        let mut i: usize = 0;
        while i < self.events.len()
            invariant
                i <= self.events.len(),
                ev == events_view(self.events@),
                self@.wf(),
                ev == self@.events,
                forall|j: int| 0 <= j < i ==> !(#[trigger] ev[j]).is_current_at(*now),
            decreases self.events.len() - i,
        {
            if self.events[i].is_current_at(now) {
                assert(ev[i as int] == self.events@[i as int]@);
                assert forall|j: int|
                    0 <= j < ev.len() && (#[trigger] ev[j]).is_current_at(*now) implies ev[i as int].start_time.timestamp
                        <= ev[j].start_time.timestamp by {
                    if j > i {
                        assert(starts_no_later(ev[i as int], ev[j]));
                    }
                }
                return Some(&self.events[i]);
            }
            i += 1;
        }
        None
    }

    /// All events not yet ended at `now` (the ongoing one included), in
    /// cache order, hence ascending by start time.
    pub fn future_events_at(&self, now: &LocalTime) -> (r: Vec<&CalendarEvent>)
        requires
            self@.wf(),
        ensures
            r@.map_values(|e: &CalendarEvent| e@) == self@.unfinished_at(*now),
    {
        let ghost ev = self@.events;
        let ghost p = |e: EventView| e.is_unfinished_at(*now);
        let mut out: Vec<&CalendarEvent> = Vec::new();
        let mut i: usize = 0;
        while i < self.events.len()
            invariant
                i <= self.events.len(),
                ev == events_view(self.events@),
                p == (|e: EventView| e.is_unfinished_at(*now)),
                out@.map_values(|e: &CalendarEvent| e@) == ev.take(i as int).filter(p),
            decreases self.events.len() - i,
        {
            let ghost before = out@;
            proof {
                reveal(Seq::filter);
                assert(ev.take(i + 1).drop_last() =~= ev.take(i as int));
                assert(ev.take(i + 1).last() == self.events@[i as int]@);
            }
            if now.timestamp < self.events[i].end_time.timestamp {
                out.push(&self.events[i]);
                assert(out@.map_values(|e: &CalendarEvent| e@) =~= before.map_values(
                    |e: &CalendarEvent| e@,
                ).push(self.events@[i as int]@));
            }
            i += 1;
        }
        assert(ev.take(i as int) =~= ev);
        out
    }

    /// The first event, in cache order, that starts strictly after `now`.
    pub fn next_event_at(&self, now: &LocalTime) -> (r: Option<&CalendarEvent>)
        requires
            self@.wf(),
        ensures
            self@.next_is(found_view(r), *now),
    {
        let ghost ev = self@.events;
        let mut i: usize = 0;
        while i < self.events.len()
            invariant
                i <= self.events.len(),
                ev == events_view(self.events@),
                ev == self@.events,
                forall|j: int| 0 <= j < i ==> !(#[trigger] ev[j]).is_future_at(*now),
            decreases self.events.len() - i,
        {
            if self.events[i].is_future_at(now) {
                assert(ev[i as int] == self.events@[i as int]@);
                assert(ev[i as int].is_future_at(*now));
                return Some(&self.events[i]);
            }
            i += 1;
        }
        None
    }

    /// The ongoing event, by the clock at the time of the call (see
    /// `current_event_at`).
    pub fn get_current_event(&self) -> (r: Option<&CalendarEvent>)
        requires
            self@.wf(),
        ensures
            exists|now: LocalTime|
                now.wf() && #[trigger] self@.current_is(found_view(r), now),
    {
        let now = current_time();
        self.current_event_at(&now)
    }

    /// The next event to start, by the clock at the time of the call (see
    /// `next_event_at`).
    pub fn get_next_event(&self) -> (r: Option<&CalendarEvent>)
        requires
            self@.wf(),
        ensures
            exists|now: LocalTime| now.wf() && #[trigger] self@.next_is(found_view(r), now),
    {
        let now = current_time();
        self.next_event_at(&now)
    }

    /// The events not yet ended, by the clock at the time of the call (see
    /// `future_events_at`).
    pub fn get_future_events(&self) -> (r: Vec<&CalendarEvent>)
        requires
            self@.wf(),
        ensures
            exists|now: LocalTime|
                now.wf() && r@.map_values(|e: &CalendarEvent| e@) == #[trigger] self@.unfinished_at(
                    now,
                ),
    {
        let now = current_time();
        self.future_events_at(&now)
    }
}


/// Every draft becomes an event: given the zone's answers, the events are
/// the drafts one for one, in order, with their titles, places and
/// descriptions.
pub proof fn lemma_every_draft_becomes_event(ds: Seq<DraftView>, zones: ZoneAnswers, now: LocalTime)
    requires
        zones_fit(ds, zones),
        forall|i: int| 0 <= i < ds.len() ==> (#[trigger] ds[i]).start.wf() && ds[i].end.wf(),
    ensures
        events_from_drafts(ds, zones, now).len() == ds.len(),
        forall|i: int|
            0 <= i < ds.len() ==> (#[trigger] events_from_drafts(ds, zones, now)[i]).name
                == ds[i].name && events_from_drafts(ds, zones, now)[i].location == ds[i].location
                && events_from_drafts(ds, zones, now)[i].description == ds[i].description,
    decreases ds.len(),
{
    if ds.len() > 0 {
        let (t, z) = (ds.drop_last(), zones.drop_last());
        assert(zones_fit(t, z)) by {
            assert forall|i: int| 0 <= i < t.len() implies zone_answer_ok(t[i].start, #[trigger] z[i].0)
                && zone_answer_ok(t[i].end, z[i].1) by {
                assert(zones[i] == z[i] && ds[i] == t[i]);
            }
        }
        assert forall|i: int| 0 <= i < t.len() implies (#[trigger] t[i]).start.wf() && t[i].end.wf() by {
            assert(ds[i] == t[i]);
        }
        lemma_every_draft_becomes_event(t, z, now);
        let last = ds.len() - 1;
        assert(zone_answer_ok(ds[last].start, zones[last].0));
        assert(zone_answer_ok(ds[last].end, zones[last].1));
        assert(event_from_draft(ds.last(), zones.last().0, zones.last().1, now) is Some);
    }
}

/// An event component without an end (`DTEND`) is dropped: the cache a
/// document fills is the one the document would fill without it.
pub proof fn lemma_event_without_end_is_dropped(
    c: CalendarView,
    cs: Seq<ComponentView>,
    i: int,
    now: LocalTime,
)
    requires
        0 <= i < cs.len(),
        first_value(cs[i].1, "DTEND"@) is None,
        c.holds_events_of(drafts_of(cs), now),
    ensures
        c.holds_events_of(drafts_of(cs.remove(i)), now),
{
    lemma_event_without_end(cs[i]);
    lemma_dropped_component(cs, i);
}

/// Filtering a sorted sequence keeps it sorted, and keeps only its elements.
pub proof fn lemma_filter_sorted(s: Seq<EventView>, p: spec_fn(EventView) -> bool)
    requires
        sorted_by_start(s),
    ensures
        sorted_by_start(s.filter(p)),
        forall|x: EventView| #[trigger] s.filter(p).contains(x) ==> s.contains(x),
    decreases s.len(),
{
    reveal(Seq::filter);
    if s.len() > 0 {
        let t = s.drop_last();
        assert(sorted_by_start(t));
        lemma_filter_sorted(t, p);
        let f = t.filter(p);
        assert forall|x: EventView| #[trigger] s.filter(p).contains(x) implies s.contains(x) by {
            let k = choose|k: int| 0 <= k < s.filter(p).len() && s.filter(p)[k] == x;
            if k < f.len() {
                assert(f.contains(x));
                let m = choose|m: int| 0 <= m < t.len() && t[m] == x;
                assert(s[m] == x);
            } else {
                assert(s[s.len() - 1] == x);
            }
        }
        if p(s.last()) {
            let r = f.push(s.last());
            assert forall|i: int, j: int| 0 <= i < j < r.len() implies starts_no_later(
                #[trigger] r[i],
                #[trigger] r[j],
            ) by {
                if j == r.len() - 1 {
                    assert(f.contains(r[i]));
                    let m = choose|m: int| 0 <= m < t.len() && t[m] == r[i];
                    assert(s[m] == r[i]);
                }
            }
        }
    }
}

/// The events still to come are ascending by start time and all belong to
/// the cache.
pub proof fn lemma_future_events_ordered(c: CalendarView, now: LocalTime)
    requires
        c.wf(),
    ensures
        sorted_by_start(c.unfinished_at(now)),
        forall|e: EventView| #[trigger] c.unfinished_at(now).contains(e) ==> c.events.contains(e),
{
    lemma_filter_sorted(c.events, |e: EventView| e.is_unfinished_at(now));
}

/// Throttling: once a fetch has succeeded at `fetched_at`, no refresh is due
/// until the refresh interval has passed, so calls in between make no fetch.
pub proof fn lemma_refresh_throttled(c: CalendarView, fetched_at: LocalTime, later: LocalTime)
    requires
        c.last_updated == Some(fetched_at),
        fetched_at.timestamp <= later.timestamp < fetched_at.timestamp + 60
            * c.refresh_interval_minutes,
    ensures
        !c.is_stale_at(later),
{
}

} // verus!
