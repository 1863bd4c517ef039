use meeting_room_display::ical::unfold_lines;
use meeting_room_display::calendar::{parse_document, Calendar, CalendarError};
use meeting_room_display::datetime::{classify_time_value, parse_datetime_property, TimeValue};
use meeting_room_display::events::CalendarEvent;
use meeting_room_display::time::{civil_seconds, CivilDateTime, LocalTime};

fn at(timestamp: i64) -> LocalTime {
    LocalTime { timestamp, offset: 0 }
}

fn local(value: &str) -> LocalTime {
    parse_datetime_property(value, at(0)).expect("a recognised local time")
}

fn document(events: &[&str]) -> String {
    let mut text = String::from("BEGIN:VCALENDAR\r\nVERSION:2.0\r\nPRODID:-//test//EN\r\n");
    for e in events {
        text.push_str("BEGIN:VEVENT\r\n");
        text.push_str(e);
        text.push_str("END:VEVENT\r\n");
    }
    text.push_str("END:VCALENDAR\r\n");
    text
}

fn event(summary: &str, start: &str, end: &str) -> String {
    format!("SUMMARY:{}\r\nDTSTART:{}\r\nDTEND:{}\r\n", summary, start, end)
}

const JAN_1_2023: i64 = 1_672_531_200;

#[test]
fn test_calendar_event() {
    let start = local("20230101T090000");
    let end = local("20230101T103000");

    let event = CalendarEvent::new(
        "Test Meeting".to_string(),
        start,
        end,
        Some("Conference Room A".to_string()),
        Some("Project kickoff meeting".to_string()),
    );

    assert_eq!(event.name, "Test Meeting");
    assert_eq!(event.duration_minutes, 90);
    assert_eq!(event.format_time_range(), "09:00 - 10:30");
}

#[test]
fn one_event_document_yields_its_event() {
    let text = document(&[
        "DTSTART:20230101T090000\r\nDTEND:20230101T103000\r\nSUMMARY:Test Meeting\r\nLOCATION:Conference Room A\r\n",
    ]);
    let mut cal = Calendar::new("http://example.invalid/cal.ics".to_string(), 15);
    assert!(cal.apply_feed(Ok(text), at(JAN_1_2023)).is_ok());
    let events = cal.events();
    assert_eq!(events.len(), 1);
    assert_eq!(events[0].name, "Test Meeting");
    assert_eq!(events[0].duration_minutes, 90);
    assert_eq!(events[0].format_time_range(), "09:00 - 10:30");
    assert_eq!(events[0].location.as_deref(), Some("Conference Room A"));
    assert_eq!(events[0].description, None);
}

#[test]
fn utc_form_is_shifted_and_local_form_is_not() {
    let utc = local("20230101T090000Z");
    let wall = local("20230101T090000");
    let nine = JAN_1_2023 + 9 * 3600;
    assert_eq!(utc.timestamp, nine);
    assert_eq!(utc.timestamp + utc.offset as i64, nine + utc.offset as i64);
    assert_eq!(wall.timestamp + wall.offset as i64, nine);
    assert_eq!(utc.timestamp - wall.timestamp, wall.offset as i64);
}

#[test]
fn date_only_value_is_local_midnight() {
    let t = local("20230101");
    assert_eq!(t.timestamp + t.offset as i64, JAN_1_2023);
    assert_eq!(t.clock_text(), vec!['0', '0', ':', '0', '0']);
}

#[test]
fn encodings_are_recognised_in_order() {
    let c = CivilDateTime { year: 2023, month: 1, day: 1, hour: 9, minute: 0, second: 0 };
    assert_eq!(classify_time_value("20230101T090000Z"), Some(TimeValue::Utc(c)));
    assert_eq!(classify_time_value("20230101T090000"), Some(TimeValue::Local(c)));
    let midnight = CivilDateTime { hour: 0, ..c };
    assert_eq!(classify_time_value("20230101"), Some(TimeValue::Date(midnight)));
    assert_eq!(classify_time_value("TZID=Europe/Paris"), None);
    assert_eq!(parse_datetime_property("not a date", at(0)), None);
}

#[test]
fn event_without_end_is_dropped() {
    let text = document(&[
        "SUMMARY:No end\r\nDTSTART:20300101T090000\r\n",
        &event("Kept", "20300102T090000", "20300102T100000"),
    ]);
    let mut cal = Calendar::new("u".to_string(), 15);
    assert!(cal.apply_feed(Ok(text), at(JAN_1_2023)).is_ok());
    let future = cal.future_events_at(&at(JAN_1_2023));
    assert_eq!(future.len(), 1);
    assert_eq!(future[0].name, "Kept");
}

/// The update cycle as a caller runs it, counting fetches.
fn update(cal: &mut Calendar, now: LocalTime, fetches: &mut u32, body: &str) -> Result<(), CalendarError> {
    if !cal.needs_refresh_at(&now) {
        return Ok(());
    }
    *fetches += 1;
    cal.apply_feed(Ok(body.to_string()), now)
}

#[test]
fn second_update_within_interval_makes_no_fetch() {
    let body = document(&[&event("A", "20300101T090000", "20300101T100000")]);
    let mut cal = Calendar::new("u".to_string(), 15);
    let mut fetches = 0;
    assert!(update(&mut cal, at(JAN_1_2023), &mut fetches, &body).is_ok());
    assert!(update(&mut cal, at(JAN_1_2023 + 60), &mut fetches, &body).is_ok());
    assert_eq!(fetches, 1);
    assert_eq!(cal.events().len(), 1);
    assert!(cal.needs_refresh_at(&at(JAN_1_2023 + 15 * 60)));
    assert!(update(&mut cal, at(JAN_1_2023 + 15 * 60), &mut fetches, &body).is_ok());
    assert_eq!(fetches, 2);
}

#[test]
fn failed_fetch_keeps_previous_snapshot() {
    let body = document(&[&event("Standup", "20230101T090000", "20230101T100000")]);
    let mut cal = Calendar::new("u".to_string(), 15);
    assert!(cal.apply_feed(Ok(body), at(0)).is_ok());
    let during = local("20230101T093000");
    let r = cal.apply_feed(Err("HTTP error: 500 Internal Server Error".to_string()), at(JAN_1_2023 + 3600));
    match r {
        Err(CalendarError::FetchError(m)) => assert_eq!(m, "HTTP error: 500 Internal Server Error"),
        other => panic!("unexpected {:?}", other),
    }
    assert_eq!(cal.last_updated(), Some(at(0)));
    assert_eq!(cal.current_event_at(&during).map(|e| e.name.clone()), Some("Standup".to_string()));
    assert_eq!(cal.future_events_at(&during).len(), 1);
    assert!(cal.needs_refresh_at(&at(JAN_1_2023 + 3600)));
}

#[test]
fn unparseable_document_keeps_previous_snapshot() {
    let body = document(&[&event("Standup", "20230101T090000", "20230101T100000")]);
    let mut cal = Calendar::new("u".to_string(), 15);
    assert!(cal.apply_feed(Ok(body), at(0)).is_ok());
    let broken = "BEGIN:VCALENDAR\r\nBEGIN:VEVENT\r\nSUMMARY:x\r\n".to_string();
    assert!(matches!(cal.apply_feed(Ok(broken), at(100)), Err(CalendarError::ParseError(_))));
    assert_eq!(cal.events().len(), 1);
    assert_eq!(cal.last_updated(), Some(at(0)));
}

#[test]
fn future_events_are_sorted_and_from_the_cache() {
    let body = document(&[
        &event("C", "20300103T090000", "20300103T100000"),
        &event("Past", "20200101T090000", "20200101T100000"),
        &event("A", "20300101T090000", "20300101T100000"),
        &event("B", "20300102T090000", "20300102T100000"),
    ]);
    let mut cal = Calendar::new("u".to_string(), 15);
    assert!(cal.apply_feed(Ok(body), at(JAN_1_2023)).is_ok());
    let names: Vec<&str> = cal.events().iter().map(|e| e.name.as_str()).collect();
    assert_eq!(names, vec!["Past", "A", "B", "C"]);
    let future = cal.future_events_at(&at(JAN_1_2023));
    let names: Vec<&str> = future.iter().map(|e| e.name.as_str()).collect();
    assert_eq!(names, vec!["A", "B", "C"]);
    for w in future.windows(2) {
        assert!(w[0].start_time.timestamp <= w[1].start_time.timestamp);
    }
}

#[test]
fn overlapping_events_give_the_earlier_start() {
    let body = document(&[
        &event("Late", "20230101T093000", "20230101T110000"),
        &event("Early", "20230101T090000", "20230101T100000"),
    ]);
    let mut cal = Calendar::new("u".to_string(), 15);
    assert!(cal.apply_feed(Ok(body), at(0)).is_ok());
    let now = local("20230101T094500");
    assert_eq!(cal.current_event_at(&now).unwrap().name, "Early");
    let after = local("20230101T103000");
    assert_eq!(cal.current_event_at(&after).unwrap().name, "Late");
    assert!(cal.current_event_at(&local("20230101T120000")).is_none());
    assert_eq!(cal.next_event_at(&local("20230101T091500")).unwrap().name, "Late");
    assert!(cal.next_event_at(&local("20230101T094500")).is_none());
}

#[test]
fn equal_starts_keep_document_order() {
    let body = document(&[
        &event("First", "20230101T090000", "20230101T100000"),
        &event("Second", "20230101T090000", "20230101T093000"),
    ]);
    let mut cal = Calendar::new("u".to_string(), 15);
    assert!(cal.apply_feed(Ok(body), at(0)).is_ok());
    let names: Vec<&str> = cal.events().iter().map(|e| e.name.as_str()).collect();
    assert_eq!(names, vec!["First", "Second"]);
}

#[test]
fn parsing_twice_gives_equal_drafts() {
    let body = document(&[
        &event("A", "20230101T090000Z", "20230101T100000Z"),
        &event("B", "20230102", "20230103"),
    ]);
    let first = parse_document(&body).ok().unwrap();
    let second = parse_document(&body).ok().unwrap();
    assert_eq!(first.len(), 2);
    assert_eq!(first.len(), second.len());
    for (a, b) in first.iter().zip(second.iter()) {
        assert_eq!(a.name, b.name);
        assert_eq!(a.start, b.start);
        assert_eq!(a.end, b.end);
        assert_eq!(a.location, b.location);
        assert_eq!(a.description, b.description);
    }
}

#[test]
fn folded_lines_are_joined() {
    let body = document(&[
        "SUMMARY:Quarterly plan\r\n ning meeting\r\nDTSTART:20230101T090000\r\nDTEND:20230101T100000\r\nDESCRIPTION:line one\r\n\tand two\r\n",
    ]);
    let drafts = parse_document(&body).ok().unwrap();
    assert_eq!(drafts.len(), 1);
    assert_eq!(drafts[0].name, "Quarterly planning meeting");
    assert_eq!(drafts[0].description.as_deref(), Some("line oneand two"));
}

#[test]
fn first_occurrence_of_a_property_wins() {
    let body = document(&[
        "SUMMARY:Kept title\r\nSUMMARY:Ignored title\r\nDTSTART:20230101T090000\r\nDTSTART:20230101T080000\r\nDTEND:20230101T100000\r\n",
    ]);
    let drafts = parse_document(&body).ok().unwrap();
    assert_eq!(drafts[0].name, "Kept title");
    let c = CivilDateTime { year: 2023, month: 1, day: 1, hour: 9, minute: 0, second: 0 };
    assert_eq!(drafts[0].start, TimeValue::Local(c));
}

#[test]
fn non_event_components_are_ignored() {
    let text = "BEGIN:VCALENDAR\r\nBEGIN:VTODO\r\nSUMMARY:Todo\r\nDTSTART:20230101T090000\r\nDTEND:20230101T100000\r\nEND:VTODO\r\nEND:VCALENDAR\r\n";
    assert_eq!(parse_document(text).ok().unwrap().len(), 0);
}

#[test]
fn civil_seconds_are_exact() {
    let c = |year, month, day, hour, minute, second| CivilDateTime { year, month, day, hour, minute, second };
    assert_eq!(civil_seconds(c(1970, 1, 1, 0, 0, 0)), 0);
    assert_eq!(civil_seconds(c(2023, 1, 1, 0, 0, 0)), JAN_1_2023);
    assert_eq!(civil_seconds(c(2000, 3, 1, 0, 0, 0)), 951_868_800);
    assert_eq!(civil_seconds(c(2024, 12, 31, 23, 59, 59)), 1_735_689_599);
    assert_eq!(civil_seconds(c(1969, 12, 31, 23, 59, 59)), -1);
    assert_eq!(civil_seconds(c(1900, 3, 1, 0, 0, 0)), -2_203_891_200);
}

#[test]
fn durations_truncate_toward_zero() {
    assert_eq!(at(0).minutes_until(&at(-90)), -1);
    assert_eq!(at(0).minutes_until(&at(90)), 1);
    let e = CalendarEvent::new("Backwards".to_string(), at(3600), at(0), None, None);
    assert_eq!(e.duration_minutes, -60);
}

#[test]
fn clock_text_uses_the_offset() {
    let t = LocalTime { timestamp: -60, offset: 3600 };
    assert_eq!(t.clock_text(), vec!['0', '0', ':', '5', '9']);
    let e = CalendarEvent::new("x".to_string(), LocalTime { timestamp: 0, offset: -1800 }, at(5400), None, None);
    assert_eq!(e.format_time_range(), "23:30 - 01:30");
}

#[test]
fn ongoing_and_future_by_the_clock() {
    let past = CalendarEvent::new("p".to_string(), at(0), at(60), None, None);
    assert!(!past.is_current());
    assert!(!past.is_future());
    let far = CalendarEvent::new("f".to_string(), at(32_503_680_000), at(32_503_683_600), None, None);
    assert!(far.is_future());
    assert!(!far.is_current());
    assert!(far.is_current_at(&at(32_503_680_000)));
    assert!(!far.is_current_at(&at(32_503_683_600)));
}

#[test]
fn new_calendar_is_empty_and_stale() {
    let cal = Calendar::new("http://example.invalid/a.ics".to_string(), 15);
    assert_eq!(cal.url(), "http://example.invalid/a.ics");
    assert_eq!(cal.last_updated(), None);
    assert!(cal.events().is_empty());
    assert!(cal.needs_refresh_at(&at(0)));
    assert!(cal.get_current_event().is_none());
    assert!(cal.get_next_event().is_none());
    assert!(cal.get_future_events().is_empty());
}

#[test]
fn calendar_error_messages() {
    assert_eq!(CalendarError::FetchError("timeout".to_string()).message(), "Failed to fetch calendar: timeout");
    assert_eq!(CalendarError::ParseError("line 3".to_string()).message(), "Failed to parse calendar: line 3");
    assert_eq!(CalendarError::NoEventsError.message(), "No events found in calendar");
}

#[test]
fn empty_feed_is_a_success_with_no_events() {
    let mut cal = Calendar::new("u".to_string(), 0);
    assert!(cal.apply_feed(Ok(document(&[])), at(JAN_1_2023)).is_ok());
    assert!(cal.events().is_empty());
    assert_eq!(cal.last_updated(), Some(at(JAN_1_2023)));
    // a zero interval makes every later call refresh again
    assert!(cal.needs_refresh_at(&at(JAN_1_2023)));
}

#[test]
fn property_parameters_are_ignored() {
    let body = document(&[
        "SUMMARY;LANGUAGE=en:Planning\r\nDTSTART;TZID=Europe/Paris:20230101T090000\r\nDTEND;VALUE=DATE:20230102\r\n",
    ]);
    let drafts = parse_document(&body).ok().unwrap();
    assert_eq!(drafts.len(), 1);
    assert_eq!(drafts[0].name, "Planning");
    let c = CivilDateTime { year: 2023, month: 1, day: 1, hour: 9, minute: 0, second: 0 };
    assert_eq!(drafts[0].start, TimeValue::Local(c));
    assert_eq!(drafts[0].end, TimeValue::Date(CivilDateTime { day: 2, hour: 0, ..c }));
}

#[test]
fn unfolding_removes_breaks_before_spaces_and_tabs() {
    assert_eq!(unfold_lines("a\r\n b"), "ab");
    assert_eq!(unfold_lines("a\n\tb"), "ab");
    assert_eq!(unfold_lines("a\r\n  b"), "a b");
    assert_eq!(unfold_lines("a\r\nb\r\n"), "a\r\nb\r\n");
    assert_eq!(unfold_lines("a\r\r\n b"), "a\rb");
    assert_eq!(unfold_lines("\n \n\tx"), "x");
    assert_eq!(unfold_lines("no folds here"), "no folds here");
}

#[test]
fn utc_values_always_normalize() {
    let t = local("99991231T235959Z");
    let c = CivilDateTime { year: 9999, month: 12, day: 31, hour: 23, minute: 59, second: 59 };
    assert_eq!(t.timestamp, civil_seconds(c));
    let body = document(&[&event("Z", "20230101T090000Z", "20230101T100000Z")]);
    let mut cal = Calendar::new("u".to_string(), 15);
    assert!(cal.apply_feed(Ok(body), at(0)).is_ok());
    assert_eq!(cal.events().len(), 1);
    assert_eq!(cal.events()[0].start_time.timestamp, JAN_1_2023 + 9 * 3600);
    assert_eq!(cal.events()[0].duration_minutes, 60);
}
