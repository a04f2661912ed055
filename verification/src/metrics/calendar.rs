//! Today's events for the calendar panel, read from iCalendar text.

use vstd::prelude::*;

use chrono::{Datelike, Local, NaiveTime, TimeZone, Timelike, Utc};
use icalendar::{CalendarDateTime, Component, DatePerhapsTime};

use crate::text::{trim, trim_seq, decimal, digit_char, push_char, push_decimal, digit_to_char};

verus! {

/// A calendar day.
#[derive(Clone, Copy, Debug, PartialEq, Eq, Structural)]
pub struct CalendarDate {
    pub year: i32,
    pub month: u32,
    pub day: u32,
}

/// `a` is on or before `b`.
pub open spec fn date_le(a: CalendarDate, b: CalendarDate) -> bool {
    a.year < b.year || (a.year == b.year && (a.month < b.month || (a.month == b.month && a.day <= b.day)))
}

/// Whether `a` is on or before `b`.
pub fn date_on_or_before(a: CalendarDate, b: CalendarDate) -> (r: bool)
    ensures
        r == date_le(a, b),
{
    a.year < b.year || (a.year == b.year && (a.month < b.month || (a.month == b.month && a.day <= b.day)))
}

/// The start or end of an event, in the local time of this machine.
#[derive(Clone, Copy, Debug, PartialEq, Eq, Structural)]
pub struct EventTime {
    pub date: CalendarDate,
    pub hour: u32,
    pub minute: u32,
    /// The event gives a date without a time of day.
    pub all_day: bool,
}

/// What the calendar panel reads of one event.
pub struct EventFields {
    pub summary: Option<String>,
    pub start: Option<EventTime>,
    pub end: Option<EventTime>,
}

/// `a` is strictly before `b`.
pub open spec fn date_lt(a: CalendarDate, b: CalendarDate) -> bool {
    !date_le(b, a)
}

/// Whether `year` is a leap year of the proleptic Gregorian calendar.
pub open spec fn leap_year(year: int) -> bool {
    (year % 4 == 0 && year % 100 != 0) || year % 400 == 0
}

/// The number of days in `month` of `year`.
pub open spec fn days_in_month(year: int, month: int) -> int {
    if month == 2 {
        if leap_year(year) { 29 } else { 28 }
    } else if month == 4 || month == 6 || month == 9 || month == 11 {
        30
    } else {
        31
    }
}

/// `d` names a day that chrono can hold: a real calendar date with a year in
/// chrono's range.
pub open spec fn valid_date(d: CalendarDate) -> bool {
    &&& -262143 <= d.year <= 262142
    &&& 1 <= d.month <= 12
    &&& 1 <= d.day <= days_in_month(d.year as int, d.month as int)
}

/// The day after `d`.
pub open spec fn next_day(d: CalendarDate) -> CalendarDate {
    if d.day < days_in_month(d.year as int, d.month as int) {
        CalendarDate { day: (d.day + 1) as u32, ..d }
    } else if d.month < 12 {
        CalendarDate { month: (d.month + 1) as u32, day: 1, ..d }
    } else {
        CalendarDate { year: (d.year + 1) as i32, month: 1, day: 1 }
    }
}

/// `t` reads a UTC time on `utc` in local time: a timed reading in range on
/// the same day, the day before or the day after.
pub open spec fn local_reading(t: EventTime, utc: CalendarDate) -> bool {
    &&& !t.all_day
    &&& 1 <= t.date.month <= 12
    &&& 1 <= t.date.day <= 31
    &&& t.hour < 24
    &&& t.minute < 60
    &&& (t.date == utc || t.date == next_day(utc) || utc == next_day(t.date))
}

/// An event touches `today`: it has a start on or before today, and today is
/// not past its end.  A date-only end after the start is exclusive (the event
/// ends the day before); any other end, or the start when there is no end,
/// is the last day.
pub open spec fn on_day(start: Option<EventTime>, end: Option<EventTime>, today: CalendarDate) -> bool {
    match start {
        None => false,
        Some(s) => date_le(s.date, today) && match end {
            None => date_le(today, s.date),
            Some(e) => if e.all_day && date_lt(s.date, e.date) {
                date_lt(today, e.date)
            } else {
                date_le(today, e.date)
            },
        },
    }
}

/// An event with a start and no end falls exactly on the day of its start;
/// an event with no start, or one that starts after today, never falls on
/// today; an event whose start is today always does, whatever its end.  An
/// all-day end after the start is not itself a day of the event, while a
/// timed end is; every day strictly between start and end is.
pub proof fn lemma_on_day_bounds(start: Option<EventTime>, end: Option<EventTime>, today: CalendarDate)
    ensures
        start matches Some(s) ==> (end matches Some(e) ==> (e.all_day && date_lt(s.date, e.date)
            ==> !on_day(start, end, e.date))),
        start matches Some(s) ==> (end matches Some(e) ==> (!e.all_day && date_le(s.date, e.date)
            ==> on_day(start, end, e.date))),
        start matches Some(s) ==> (end matches Some(e) ==> (date_lt(s.date, today) && date_lt(today, e.date)
            ==> on_day(start, end, today))),
        start matches Some(s) ==> (on_day(Some(s), None, today) <==> s.date == today),
        start is None ==> !on_day(start, end, today),
        start matches Some(s) && date_lt(today, s.date) ==> !on_day(start, end, today),
        start matches Some(s) && s.date == today && end is None ==> on_day(start, end, today),
{
    if let Some(s) = start {
        if date_le(s.date, today) && date_le(today, s.date) {
            assert(s.date.year == today.year && s.date.month == today.month && s.date.day == today.day);
            assert(s.date == today);
        }
    }
}

/// Two-digit, zero-padded form of an hour or minute.
pub open spec fn padded2(n: nat) -> Seq<char> {
    if n < 10 { seq!['0', digit_char(n)] } else { decimal(n) }
}

/// The time shown before an event: `HH:MM` of its start, or "all day"
/// for a date-only or missing start.
pub open spec fn stamp_text(start: Option<EventTime>) -> Seq<char> {
    match start {
        None => "all day"@,
        Some(t) => if t.all_day {
            "all day"@
        } else {
            padded2(t.hour as nat) + seq![':'] + padded2(t.minute as nat)
        },
    }
}

/// The title shown for an event: its trimmed summary, or "Event" when blank or missing.
pub open spec fn summary_text(summary: Option<Seq<char>>) -> Seq<char> {
    match summary {
        Some(s) => if trim_seq(s).len() > 0 { trim_seq(s) } else { "Event"@ },
        None => "Event"@,
    }
}

/// The summary of an event's fields as plain characters.
pub open spec fn summary_view(e: EventFields) -> Option<Seq<char>> {
    match e.summary {
        Some(s) => Some(s@),
        None => None,
    }
}

/// The panel line of an event: the time, two spaces, the title.
pub open spec fn event_line(e: EventFields) -> Seq<char> {
    stamp_text(e.start) + "  "@ + summary_text(summary_view(e))
}

/// The panel shows at most this many events.
pub open spec fn max_events() -> nat {
    8
}

/// The lines after reading `items` in order: each event of the day adds its
/// line unless that line is already there, and reading stops once the panel
/// holds `max_events()` lines after an event of the day.
pub open spec fn collect_lines(lines: Seq<Seq<char>>, items: Seq<EventFields>, today: CalendarDate) -> Seq<Seq<char>>
    decreases items.len(),
{
    if items.len() == 0 {
        lines
    } else {
        let first = items[0];
        if !on_day(first.start, first.end, today) {
            collect_lines(lines, items.drop_first(), today)
        } else {
            let line = event_line(first);
            let next = if lines.contains(line) { lines } else { lines.push(line) };
            if next.len() >= max_events() {
                next
            } else {
                collect_lines(next, items.drop_first(), today)
            }
        }
    }
}

/// The characters of each line.
pub open spec fn lines_view(v: Seq<String>) -> Seq<Seq<char>> {
    v.map_values(|s: String| s@)
}

/// No line appears twice.
pub open spec fn no_repeats(s: Seq<Seq<char>>) -> bool {
    forall|i: int, j: int| 0 <= i < s.len() && 0 <= j < s.len() && i != j ==> s[i] != s[j]
}

/// `line` is the panel line of one of `items` that falls on `today`.
pub open spec fn is_day_line(items: Seq<EventFields>, today: CalendarDate, line: Seq<char>) -> bool {
    exists|j: int|
        0 <= j < items.len() && on_day(#[trigger] items[j].start, items[j].end, today) && line
            == event_line(items[j])
}

proof fn lemma_day_line_of_rest(items: Seq<EventFields>, today: CalendarDate, line: Seq<char>)
    requires
        items.len() > 0,
        is_day_line(items.drop_first(), today, line),
    ensures
        is_day_line(items, today, line),
{
    let rest = items.drop_first();
    let j = choose|j: int|
        0 <= j < rest.len() && on_day(#[trigger] rest[j].start, rest[j].end, today) && line
            == event_line(rest[j]);
    assert(rest[j] == items[j + 1]);
    assert(on_day(items[j + 1].start, items[j + 1].end, today));
}

/// Starting below the cap, the panel never holds more than `max_events()`
/// lines, keeps the lines it had, gains no repeated line, and every line it
/// gains is the line of an event of the day.
pub proof fn lemma_collect_lines_shape(lines: Seq<Seq<char>>, items: Seq<EventFields>, today: CalendarDate)
    requires
        lines.len() < max_events(),
    ensures
        collect_lines(lines, items, today).len() <= max_events(),
        collect_lines(lines, items, today).len() >= lines.len(),
        collect_lines(lines, items, today).take(lines.len() as int) == lines,
        no_repeats(lines) ==> no_repeats(collect_lines(lines, items, today)),
        forall|k: int|
            lines.len() <= k < collect_lines(lines, items, today).len() ==> is_day_line(
                items,
                today,
                #[trigger] collect_lines(lines, items, today)[k],
            ),
    decreases items.len(),
{
    let r = collect_lines(lines, items, today);
    if items.len() == 0 {
        assert(r.take(lines.len() as int) =~= lines);
    } else {
        let first = items[0];
        let rest = items.drop_first();
        if !on_day(first.start, first.end, today) {
            lemma_collect_lines_shape(lines, rest, today);
            assert forall|k: int| lines.len() <= k < r.len() implies is_day_line(items, today, #[trigger] r[k]) by {
                lemma_day_line_of_rest(items, today, r[k]);
            }
        } else {
            let line = event_line(first);
            assert(on_day(items[0].start, items[0].end, today));
            assert(is_day_line(items, today, line));
            let next = if lines.contains(line) { lines } else { lines.push(line) };
            assert(next.take(lines.len() as int) =~= lines);
            if no_repeats(lines) && !lines.contains(line) {
                assert forall|i: int, j: int|
                    0 <= i < next.len() && 0 <= j < next.len() && i != j implies next[i] != next[j] by {
                    if i == lines.len() as int {
                        assert(lines[j] == next[j]);
                    } else if j == lines.len() as int {
                        assert(lines[i] == next[i]);
                    }
                }
            }
            if next.len() >= max_events() {
                assert forall|k: int| lines.len() <= k < r.len() implies is_day_line(items, today, #[trigger] r[k]) by {
                    assert(r[k] == line);
                }
            } else {
                lemma_collect_lines_shape(next, rest, today);
                assert(r.take(next.len() as int) == next);
                assert forall|i: int| 0 <= i < lines.len() implies r[i] == next[i] by {
                    assert(r.take(next.len() as int)[i] == next[i]);
                }
                assert(r.take(lines.len() as int) =~= next.take(lines.len() as int));
                assert forall|k: int| lines.len() <= k < r.len() implies is_day_line(items, today, #[trigger] r[k]) by {
                    if k < next.len() {
                        assert(r.take(next.len() as int)[k] == next[k]);
                        assert(r[k] == line);
                    } else {
                        lemma_day_line_of_rest(items, today, r[k]);
                    }
                }
            }
        }
    }
}

/// Whether the event touches `today`.
pub fn falls_on_day(start: Option<EventTime>, end: Option<EventTime>, today: CalendarDate) -> (r: bool)
    ensures
        r == on_day(start, end, today),
{
    let s = match start {
        None => return false,
        Some(s) => s,
    };
    if !date_on_or_before(s.date, today) {
        return false;
    }
    match end {
        None => date_on_or_before(today, s.date),
        Some(e) => if e.all_day && !date_on_or_before(e.date, s.date) {
            !date_on_or_before(e.date, today)
        } else {
            date_on_or_before(today, e.date)
        },
    }
}

fn push_padded2(out: &mut String, n: u32)
    ensures
        final(out)@ == old(out)@ + padded2(n as nat),
{
    if n < 10 {
        push_char(out, '0');
        push_char(out, digit_to_char(n as u64));
        assert(final(out)@ =~= old(out)@ + padded2(n as nat));
    } else {
        push_decimal(out, n as u128);
    }
}

/// The time shown before an event.
pub fn format_stamp(start: Option<EventTime>) -> (r: String)
    ensures
        r@ == stamp_text(start),
{
    match start {
        Some(t) => {
            if t.all_day {
                "all day".to_owned()
            } else {
                let mut r = String::new();
                push_padded2(&mut r, t.hour);
                push_char(&mut r, ':');
                push_padded2(&mut r, t.minute);
                assert(r@ =~= stamp_text(start));
                r
            }
        },
        None => "all day".to_owned(),
    }
}

/// The panel line for an event.
pub fn event_text(e: &EventFields) -> (r: String)
    ensures
        r@ == event_line(*e),
{
    let mut r = format_stamp(e.start);
    r.append("  ");
    match &e.summary {
        Some(s) => {
            let t = trim(s.as_str());
            if !t.is_empty() {
                r.append(t);
            } else {
                r.append("Event");
            }
        },
        None => r.append("Event"),
    }
    assert(r@ =~= event_line(*e));
    r
}

/// Whether `line` is already among `lines`.
fn has_line(lines: &Vec<String>, line: &String) -> (r: bool)
    ensures
        r == lines_view(lines@).contains(line@),
{
    let mut i: usize = 0;
    while i < lines.len()
        invariant
            i <= lines@.len(),
            forall|j: int| 0 <= j < i ==> lines@[j]@ != line@,
        decreases lines.len() - i,
    {
        if lines[i] == *line {
            assert(lines_view(lines@)[i as int] == line@);
            return true;
        }
        i = i + 1;
    }
    assert forall|j: int| 0 <= j < lines_view(lines@).len() implies lines_view(lines@)[j] != line@ by {
        assert(lines_view(lines@)[j] == lines@[j]@);
    }
    false
}

/// Adds the lines of today's events among `items` to `lines`, as `collect_lines` says.
pub fn collect_events(lines: &mut Vec<String>, items: &Vec<EventFields>, today: CalendarDate)
    ensures
        lines_view(final(lines)@) == collect_lines(lines_view(old(lines)@), items@, today),
{
    let mut i: usize = 0;
    assert(items@.skip(0) =~= items@);
    while i < items.len()
        invariant
            i <= items@.len(),
            collect_lines(lines_view(old(lines)@), items@, today) == collect_lines(
                lines_view(lines@),
                items@.skip(i as int),
                today,
            ),
        decreases items.len() - i,
    {
        let ghost rest = items@.skip(i as int);
        assert(rest[0] == items@[i as int]);
        assert(rest.drop_first() =~= items@.skip(i + 1));
        let item = &items[i];
        if falls_on_day(item.start, item.end, today) {
            let line = event_text(item);
            if !has_line(lines, &line) {
                let ghost before = lines@;
                lines.push(line);
                assert(lines_view(lines@) =~= lines_view(before).push(event_line(*item)));
            }
            if lines.len() >= 8 {
                return;
            }
        }
        i = i + 1;
    }
    assert(items@.skip(i as int).len() == 0);
}

/// Whether the panel has as many events as it shows, so no more files are read.
pub fn calendar_full(lines: &Vec<String>) -> (r: bool)
    ensures
        r == (lines@.len() >= max_events()),
{
    lines.len() >= 8
}

/// An iCalendar event.
#[verifier::external_type_specification]
#[verifier::external_body]
pub struct ExEvent(icalendar::Event);

/// How an iCalendar date or date-time value is written.
#[derive(Clone, Copy, Debug, PartialEq, Eq, Structural)]
pub enum TimeKind {
    /// A date without a time of day (`VALUE=DATE`).
    Date,
    /// A wall-clock date and time, floating or with a `TZID`: kept as written.
    WallClock,
    /// A date and time in UTC (written with a trailing `Z`).
    Utc,
}

/// A `DTSTART` or `DTEND` value as the iCalendar crate decodes it: its kind,
/// its date and its time of day (midnight for a date), in the zone it is written in.
#[derive(Clone, Copy, Debug, PartialEq, Eq, Structural)]
pub struct IcsTime {
    pub kind: TimeKind,
    pub date: CalendarDate,
    pub hour: u32,
    pub minute: u32,
    pub second: u32,
}

/// What the iCalendar parser makes of a text: `None` when it rejects it, else
/// the calendar's components in order, each event as its single-valued
/// properties (each name with its value text and its parameters, a parameter
/// being a name with its value text) and any other component as `None`.
pub uninterp spec fn ics_components(raw: Seq<char>) -> Option<Seq<Option<Map<Seq<char>, (Seq<char>, Map<Seq<char>, Seq<char>>)>>>>;

/// The single-valued properties of an event (its `properties` map): each
/// name with its value text and its parameters.
pub uninterp spec fn event_properties(event: icalendar::Event) -> Map<Seq<char>, (Seq<char>, Map<Seq<char>, Seq<char>>)>;

/// How the iCalendar crate decodes property `key` written as `value` with
/// `params` (`DatePerhapsTime::from_property`); `None` when it does not decode.
pub uninterp spec fn ics_time(key: Seq<char>, value: Seq<char>, params: Map<Seq<char>, Seq<char>>) -> Option<IcsTime>;

/// The events of `v` carry, in order, the properties that `comps` gives, and
/// the other components are where `comps` has none.
pub open spec fn components_match(
    v: Seq<Option<icalendar::Event>>,
    comps: Seq<Option<Map<Seq<char>, (Seq<char>, Map<Seq<char>, Seq<char>>)>>>,
) -> bool {
    &&& v.len() == comps.len()
    &&& forall|k: int|
        #![trigger v[k]]
        0 <= k < v.len() ==> (v[k] is Some) == (comps[k] is Some) && (v[k] is Some ==> event_properties(
            v[k]->0,
        ) == comps[k]->0)
}

/// Calls `<icalendar::Calendar as FromStr>::from_str` on the text and, when
/// it parses, `CalendarComponent::as_event` on each component in order,
/// cloning the events.  The result is named `ics_components` of the text.
#[verifier::external_body]
fn parse_components(raw: &str) -> (r: Option<Vec<Option<icalendar::Event>>>)
    ensures
        match ics_components(raw@) {
            None => r is None,
            Some(comps) => r matches Some(v) && components_match(v@, comps),
        },
{
    let cal = raw.parse::<icalendar::Calendar>().ok()?;
    Some(cal.components.iter().map(|c| c.as_event().cloned()).collect())
}

/// Calls `Component::get_summary`, which is `property_value("SUMMARY")`:
/// the value text of the `SUMMARY` property, if there is one.
#[verifier::external_body]
fn event_summary(event: &icalendar::Event) -> (r: Option<String>)
    ensures
        match r {
            Some(s) => event_properties(*event).dom().contains("SUMMARY"@)
                && s@ == event_properties(*event)["SUMMARY"@].0,
            None => !event_properties(*event).dom().contains("SUMMARY"@),
        },
{
    event.get_summary().map(|s| s.to_owned())
}

/// Calls `DatePerhapsTime::from_property` on the event's property `key` (as
/// `Component::get_start` and `get_end` do for `DTSTART` and `DTEND`) and
/// takes the decoded value apart with chrono: none without such a property,
/// else what `ics_time` names for the property's name, value and parameters.
/// The date is a valid date of chrono's range, hours, minutes and seconds lie
/// in chrono's ranges, and a date reads as midnight.
#[verifier::external_body]
fn event_time(event: &icalendar::Event, key: &str) -> (r: Option<IcsTime>)
    ensures
        r == (if event_properties(*event).dom().contains(key@) {
            ics_time(key@, event_properties(*event)[key@].0, event_properties(*event)[key@].1)
        } else {
            None
        }),
        r matches Some(t) ==> valid_date(t.date) && t.hour < 24 && t.minute < 60 && t.second < 60,
        r matches Some(t) ==> (t.kind == TimeKind::Date ==> t.hour == 0 && t.minute == 0 && t.second == 0),
{
    let (t, kind) = match DatePerhapsTime::from_property(event.properties().get(key)?)? {
        DatePerhapsTime::Date(d) => (d.and_time(NaiveTime::MIN), TimeKind::Date),
        DatePerhapsTime::DateTime(CalendarDateTime::Utc(dt)) => (dt.naive_utc(), TimeKind::Utc),
        DatePerhapsTime::DateTime(CalendarDateTime::Floating(dt)) => (dt, TimeKind::WallClock),
        DatePerhapsTime::DateTime(CalendarDateTime::WithTimezone { date_time, .. }) => (date_time, TimeKind::WallClock),
    };
    let date = CalendarDate { year: t.year(), month: t.month(), day: t.day() };
    Some(IcsTime { kind, date, hour: t.hour(), minute: t.minute(), second: t.second() })
}

/// Calls chrono's `TimeZone::with_ymd_and_hms` on `Utc` and moves the instant
/// to this machine's time zone (`DateTime::with_timezone(&Local)`), read back
/// field by field.  chrono builds the UTC time exactly when the fields name a
/// valid date and time (`Utc` is never ambiguous), and a local reading always
/// follows; its date is the UTC date or a day next to it, since a zone offset
/// is under a day.  Beyond that the local time belongs to the machine and is
/// not stated; neither is chrono's panic when the machine's time-zone data
/// yields no local time type for the instant.
#[verifier::external_body]
fn utc_to_local(date: CalendarDate, hour: u32, minute: u32, second: u32) -> (r: Option<EventTime>)
    ensures
        valid_date(date) && hour < 24 && minute < 60 && second < 60 ==> r is Some,
        r matches Some(t) ==> local_reading(t, date),
{
    let utc = Utc.with_ymd_and_hms(date.year, date.month, date.day, hour, minute, second).single()?;
    let l = utc.with_timezone(&Local);
    let date = CalendarDate { year: l.year(), month: l.month(), day: l.day() };
    Some(EventTime { date, hour: l.hour(), minute: l.minute(), all_day: false })
}

/// A decoded value whose zone is fixed, as the panel reads it: the date and
/// time as written, all-day for a date.
pub open spec fn wall_time(t: IcsTime) -> EventTime {
    EventTime { date: t.date, hour: t.hour, minute: t.minute, all_day: t.kind == TimeKind::Date }
}

/// `r` is what the panel reads of the decoded value `decoded`: nothing
/// without one, the written time for a date or a wall-clock time, and for a
/// UTC time (whose local time belongs to the machine) a local reading of it.
pub open spec fn time_reads(r: Option<EventTime>, decoded: Option<IcsTime>) -> bool {
    match decoded {
        None => r is None,
        Some(t) => if t.kind == TimeKind::Utc {
            r matches Some(x) && local_reading(x, t.date)
        } else {
            r == Some(wall_time(t))
        },
    }
}

/// The value text of property `key`, if there is one.
pub open spec fn prop_value(props: Map<Seq<char>, (Seq<char>, Map<Seq<char>, Seq<char>>)>, key: Seq<char>) -> Option<Seq<char>> {
    if props.dom().contains(key) {
        Some(props[key].0)
    } else {
        None
    }
}

/// The decoded value of property `key`, if there is one and it decodes.
pub open spec fn prop_time(props: Map<Seq<char>, (Seq<char>, Map<Seq<char>, Seq<char>>)>, key: Seq<char>) -> Option<IcsTime> {
    if props.dom().contains(key) {
        ics_time(key, props[key].0, props[key].1)
    } else {
        None
    }
}

/// `item` is what the panel reads of an event with properties `props`: its
/// `SUMMARY` text as given, and its `DTSTART` and `DTEND` values.
pub open spec fn fields_read(item: EventFields, props: Map<Seq<char>, (Seq<char>, Map<Seq<char>, Seq<char>>)>) -> bool {
    &&& summary_view(item) == prop_value(props, "SUMMARY"@)
    &&& time_reads(item.start, prop_time(props, "DTSTART"@))
    &&& time_reads(item.end, prop_time(props, "DTEND"@))
}

/// The properties of the events among `comps`, in order.
pub open spec fn event_maps(comps: Seq<Option<Map<Seq<char>, (Seq<char>, Map<Seq<char>, Seq<char>>)>>>) -> Seq<Map<Seq<char>, (Seq<char>, Map<Seq<char>, Seq<char>>)>>
    decreases comps.len(),
{
    if comps.len() == 0 {
        Seq::empty()
    } else {
        let rest = event_maps(comps.drop_last());
        match comps.last() {
            Some(m) => rest.push(m),
            None => rest,
        }
    }
}

/// The panel's reading of the event's property `key` (`DTSTART` or `DTEND`).
fn event_moment(event: &icalendar::Event, key: &str) -> (r: Option<EventTime>)
    ensures
        time_reads(r, prop_time(event_properties(*event), key@)),
{
    match event_time(event, key) {
        None => None,
        Some(t) => match t.kind {
            TimeKind::Utc => utc_to_local(t.date, t.hour, t.minute, t.second),
            TimeKind::Date => Some(EventTime { date: t.date, hour: t.hour, minute: t.minute, all_day: true }),
            TimeKind::WallClock => Some(EventTime { date: t.date, hour: t.hour, minute: t.minute, all_day: false }),
        },
    }
}

/// The fields of one event that the panel reads.
fn event_fields(event: &icalendar::Event) -> (r: EventFields)
    ensures
        fields_read(r, event_properties(*event)),
{
    EventFields {
        summary: event_summary(event),
        start: event_moment(event, "DTSTART"),
        end: event_moment(event, "DTEND"),
    }
}

/// Adds today's events of one iCalendar file's text to `lines`.  Text the
/// parser rejects adds nothing; otherwise the lines are those that
/// `collect_lines` gives for the file's events in order, each read from its
/// properties as `fields_read` says.
pub fn collect_from_text(raw: &str, today: CalendarDate, lines: &mut Vec<String>)
    ensures
        match ics_components(raw@) {
            None => final(lines)@ == old(lines)@,
            Some(comps) => exists|items: Seq<EventFields>|
                #![trigger collect_lines(lines_view(old(lines)@), items, today)]
                items.len() == event_maps(comps).len()
                    && (forall|k: int| 0 <= k < items.len() ==> fields_read(#[trigger] items[k], event_maps(comps)[k]))
                    && lines_view(final(lines)@) == collect_lines(lines_view(old(lines)@), items, today),
        },
{
    let components = match parse_components(raw) {
        Some(c) => c,
        None => return,
    };
    let ghost comps = ics_components(raw@)->0;
    let mut items: Vec<EventFields> = Vec::new();
    let mut i: usize = 0;
    while i < components.len()
        invariant
            i <= components@.len(),
            components_match(components@, comps),
            items@.len() == event_maps(comps.take(i as int)).len(),
            forall|k: int| 0 <= k < items@.len() ==> fields_read(#[trigger] items@[k], event_maps(comps.take(i as int))[k]),
        decreases components.len() - i,
    {
        assert(comps.take(i + 1).drop_last() =~= comps.take(i as int));
        assert(comps.take(i + 1).last() == comps[i as int]);
        if let Some(event) = &components[i] {
            let f = event_fields(event);
            items.push(f);
        }
        i = i + 1;
    }
    assert(comps.take(i as int) =~= comps);
    let ghost before = lines_view(lines@);
    collect_events(lines, &items, today);
    assert(lines_view(lines@) == collect_lines(before, items@, today));
}

} // verus!
