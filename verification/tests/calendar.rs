use chrono::{Datelike, TimeZone, Timelike};
use desk_monitoring::metrics::calendar::{
    calendar_full, collect_events, collect_from_text, falls_on_day, format_stamp, CalendarDate,
    EventFields, EventTime,
};

fn day(year: i32, month: u32, day: u32) -> CalendarDate {
    CalendarDate { year, month, day }
}

fn at(date: CalendarDate, hour: u32, minute: u32) -> EventTime {
    EventTime { date, hour, minute, all_day: false }
}

fn whole(date: CalendarDate) -> EventTime {
    EventTime { date, hour: 0, minute: 0, all_day: true }
}

fn ics(events: &[&str]) -> String {
    let mut s = String::from("BEGIN:VCALENDAR\r\nVERSION:2.0\r\nPRODID:-//test//EN\r\n");
    for e in events {
        s.push_str("BEGIN:VEVENT\r\n");
        s.push_str(e);
        s.push_str("END:VEVENT\r\n");
    }
    s.push_str("END:VCALENDAR\r\n");
    s
}

#[test]
fn stamps() {
    assert_eq!(format_stamp(None), "all day");
    assert_eq!(format_stamp(Some(whole(day(2024, 5, 1)))), "all day");
    assert_eq!(format_stamp(Some(at(day(2024, 5, 1), 9, 5))), "09:05");
    assert_eq!(format_stamp(Some(at(day(2024, 5, 1), 23, 59))), "23:59");
}

#[test]
fn days_covered() {
    let today = day(2024, 5, 10);
    assert!(falls_on_day(Some(whole(today)), None, today));
    assert!(!falls_on_day(None, Some(whole(today)), today));
    assert!(falls_on_day(Some(whole(day(2024, 5, 8))), Some(whole(day(2024, 5, 12))), today));
    assert!(!falls_on_day(Some(whole(day(2024, 5, 11))), None, today));
    assert!(!falls_on_day(Some(whole(day(2024, 4, 30))), Some(whole(day(2024, 5, 9))), today));
    assert!(falls_on_day(Some(whole(day(2023, 12, 31))), Some(whole(day(2025, 1, 1))), today));
}

#[test]
fn date_only_end_is_exclusive() {
    let today = day(2024, 5, 10);
    assert!(!falls_on_day(Some(whole(day(2024, 5, 8))), Some(whole(today)), today));
    assert!(falls_on_day(Some(whole(day(2024, 5, 8))), Some(whole(day(2024, 5, 11))), today));
    assert!(falls_on_day(Some(whole(today)), Some(whole(today)), today));
    assert!(falls_on_day(Some(at(day(2024, 5, 9), 22, 0)), Some(at(today, 1, 0)), today));
    assert!(falls_on_day(Some(whole(day(2024, 5, 9))), Some(at(today, 12, 0)), today));
}

#[test]
fn one_day_trip_shows_on_its_day_only() {
    let text = ics(&["UID:t\r\nDTSTART;VALUE=DATE:20240101\r\nDTEND;VALUE=DATE:20240102\r\nSUMMARY:Trip\r\n"]);
    let mut lines: Vec<String> = Vec::new();
    collect_from_text(&text, day(2024, 1, 2), &mut lines);
    assert!(lines.is_empty());
    collect_from_text(&text, day(2024, 1, 1), &mut lines);
    assert_eq!(lines, vec!["all day  Trip"]);
}

#[test]
fn zoned_times_keep_their_wall_clock() {
    let text = ics(&[
        "UID:z\r\nSUMMARY:Call\r\nDTSTART;TZID=Europe/Berlin:20240510T081500\r\n",
        "UID:b\r\nSUMMARY:Broken\r\nDTSTART:not-a-time\r\n",
    ]);
    let mut lines: Vec<String> = Vec::new();
    collect_from_text(&text, day(2024, 5, 10), &mut lines);
    assert_eq!(lines, vec!["08:15  Call"]);
}

#[test]
fn collects_todays_events_from_ics_text() {
    let text = ics(&[
        "UID:1\r\nSUMMARY:  Standup \r\nDTSTART:20240510T093000\r\nDTEND:20240510T094500\r\n",
        "UID:2\r\nSUMMARY:Holiday\r\nDTSTART;VALUE=DATE:20240510\r\n",
        "UID:3\r\nSUMMARY:Tomorrow\r\nDTSTART;VALUE=DATE:20240511\r\n",
        "UID:4\r\nDTSTART:20240509T100000\r\nDTEND:20240511T100000\r\n",
        "UID:5\r\nSUMMARY:Standup\r\nDTSTART:20240510T093000\r\n",
    ]);
    let mut lines: Vec<String> = Vec::new();
    collect_from_text(&text, day(2024, 5, 10), &mut lines);
    assert_eq!(lines, vec!["09:30  Standup", "all day  Holiday", "10:00  Event"]);
}

#[test]
fn rejected_text_adds_nothing() {
    let mut lines = vec!["kept".to_string()];
    collect_from_text("this is not a calendar", day(2024, 5, 10), &mut lines);
    assert_eq!(lines, vec!["kept"]);
}

#[test]
fn at_most_eight_lines() {
    let today = day(2024, 1, 2);
    let items: Vec<EventFields> = (0..12u32)
        .map(|i| EventFields {
            summary: Some(format!("Meeting {i}")),
            start: Some(at(today, i, 0)),
            end: None,
        })
        .collect();
    let mut lines = Vec::new();
    collect_events(&mut lines, &items, today);
    assert_eq!(lines.len(), 8);
    assert!(calendar_full(&lines));
    assert_eq!(lines[0], "00:00  Meeting 0");
    assert_eq!(lines[7], "07:00  Meeting 7");
}

#[test]
fn repeated_lines_kept_once() {
    let today = day(2024, 1, 2);
    let e = || EventFields { summary: Some("Lunch".to_string()), start: Some(at(today, 12, 0)), end: None };
    let mut lines = vec!["12:00  Lunch".to_string()];
    collect_events(&mut lines, &vec![e(), e()], today);
    assert_eq!(lines, vec!["12:00  Lunch"]);
    assert!(!calendar_full(&lines));
}

#[test]
fn blank_summary_reads_event() {
    let today = day(2024, 1, 2);
    let items = vec![EventFields { summary: Some("   ".to_string()), start: Some(whole(today)), end: None }];
    let mut lines = Vec::new();
    collect_events(&mut lines, &items, today);
    assert_eq!(lines, vec!["all day  Event"]);
}

#[test]
fn utc_times_move_to_local_time() {
    let local = chrono::Utc.with_ymd_and_hms(2024, 5, 10, 12, 0, 0).unwrap().with_timezone(&chrono::Local);
    let today = day(local.year(), local.month(), local.day());
    let text = ics(&["UID:u\r\nSUMMARY:Noon\r\nDTSTART:20240510T120000Z\r\n"]);
    let mut lines: Vec<String> = Vec::new();
    collect_from_text(&text, today, &mut lines);
    assert_eq!(lines, vec![format!("{:02}:{:02}  Noon", local.hour(), local.minute())]);
}
