use std::cmp::Ordering;

use chrono::{Datelike, NaiveDate};
use igen::agenda::{
    day_heading, event_days, event_line, fit_title, list_rows, plan_agenda, sort_events,
    AgendaRow, PlacedRow, DATE_EVENT_PADDING, DATE_HEIGHT, EVENT_HEIGHT, EVENT_PADDING,
    TITLE_MAX_LENGTH,
};
use igen::calendar::{Event, Moment, Span, Time};

const HOUR: i64 = 3600;

// a moment of the given day, `second` seconds after its midnight
fn moment(day: i32, second: u32) -> Moment {
    Moment { day, second_of_day: second, timestamp: day as i64 * 24 * HOUR + second as i64, nanos: 0 }
}

fn timed(day: i32, second: u32) -> Time {
    Time::Timed(moment(day, second), Span { seconds: HOUR, nanos: 0 })
}

fn event(time: Time, title: &str) -> Event {
    Event { time, title: title.to_string() }
}

fn titles(events: &[Event]) -> Vec<&str> {
    events.iter().map(|e| e.title.as_str()).collect()
}

fn day_number(year: i32, month: u32, day: u32) -> i32 {
    NaiveDate::from_ymd_opt(year, month, day).unwrap().num_days_from_ce()
}

#[test]
fn whole_days_are_ordered_by_day() {
    assert_eq!(Time::AllDay(5).compare(&Time::AllDay(6)), Ordering::Less);
    assert_eq!(Time::AllDay(6).compare(&Time::AllDay(5)), Ordering::Greater);
    assert_eq!(Time::AllDay(5).compare(&Time::AllDay(5)), Ordering::Equal);
    assert_eq!(Time::AllDay(-3).compare(&Time::AllDay(2)), Ordering::Less);
}

#[test]
fn moments_are_ordered_by_instant() {
    assert_eq!(timed(5, 100).compare(&timed(5, 101)), Ordering::Less);
    assert_eq!(timed(5, 101).compare(&timed(5, 100)), Ordering::Greater);
    assert_eq!(timed(5, 100).compare(&timed(5, 100)), Ordering::Equal);
    assert_eq!(timed(4, 80000).compare(&timed(5, 0)), Ordering::Less);
    let early = Moment { day: 1, second_of_day: 0, timestamp: 7, nanos: 1 };
    let late = Moment { day: 1, second_of_day: 0, timestamp: 7, nanos: 2 };
    assert_eq!(early.compare(&late), Ordering::Less);
    assert_eq!(late.compare(&early), Ordering::Greater);
    assert_eq!(late.compare(&late), Ordering::Equal);
    let later = Moment { day: 1, second_of_day: 0, timestamp: 8, nanos: 0 };
    assert_eq!(late.compare(&later), Ordering::Less);
}

#[test]
fn how_long_an_event_lasts_plays_no_part_in_the_order() {
    let short = Time::Timed(moment(5, 100), Span { seconds: 1, nanos: 0 });
    let long = Time::Timed(moment(5, 100), Span { seconds: 9999, nanos: 5 });
    assert_eq!(short.compare(&long), Ordering::Equal);
    assert_ne!(short, long);
    assert!(short.is_not_after(&long) && long.is_not_after(&short));
}

#[test]
fn whole_day_comes_before_the_moments_of_the_day() {
    assert_eq!(Time::AllDay(5).compare(&timed(5, 0)), Ordering::Less);
    assert_eq!(timed(5, 0).compare(&Time::AllDay(5)), Ordering::Greater);
    assert_eq!(Time::AllDay(5).compare(&timed(5, 86399)), Ordering::Less);
    assert_eq!(Time::AllDay(5).compare(&timed(4, 86399)), Ordering::Greater);
    assert_eq!(timed(4, 86399).compare(&Time::AllDay(5)), Ordering::Less);
    assert_eq!(Time::AllDay(5).compare(&timed(6, 0)), Ordering::Less);
    assert_eq!(timed(6, 0).compare(&Time::AllDay(5)), Ordering::Greater);
    assert!(Time::AllDay(5).is_not_after(&timed(5, 0)));
    assert!(!timed(5, 0).is_not_after(&Time::AllDay(5)));
}

#[test]
fn start_day() {
    assert_eq!(Time::AllDay(12).start_day(), 12);
    assert_eq!(timed(13, 5).start_day(), 13);
}

#[test]
fn events_are_sorted_by_time() {
    let events = vec![
        event(timed(3, 500), "c"),
        event(Time::AllDay(4), "e"),
        event(timed(3, 100), "b"),
        event(timed(4, 1), "f"),
        event(Time::AllDay(3), "a"),
        event(timed(3, 80000), "d"),
    ];
    let sorted = sort_events(events);
    assert_eq!(titles(&sorted), vec!["a", "b", "c", "d", "e", "f"]);
}

#[test]
fn sorting_keeps_events_of_one_time_in_their_order() {
    let events = vec![
        event(timed(2, 7), "third"),
        event(Time::AllDay(2), "first"),
        event(timed(2, 7), "fourth"),
        event(Time::AllDay(2), "second"),
        event(timed(2, 7), "fifth"),
    ];
    let sorted = sort_events(events);
    assert_eq!(titles(&sorted), vec!["first", "second", "third", "fourth", "fifth"]);
    assert_eq!(titles(&sort_events(vec![])), Vec::<&str>::new());
    assert_eq!(titles(&sort_events(vec![event(Time::AllDay(1), "only")])), vec!["only"]);
}

#[test]
fn days_of_events_are_listed_once_and_in_order() {
    let events = vec![
        event(timed(9, 5), "a"),
        event(Time::AllDay(3), "b"),
        event(Time::AllDay(9), "c"),
        event(timed(-2, 5), "d"),
        event(timed(3, 7), "e"),
        event(Time::AllDay(5), "f"),
    ];
    assert_eq!(event_days(&events), vec![-2, 3, 5, 9]);
    assert_eq!(event_days(&vec![]), Vec::<i32>::new());
}

#[test]
fn day_heading_names_weekday_day_and_month() {
    assert_eq!(day_heading(day_number(2025, 2, 3)), "Mon, 3. Feb");
    assert_eq!(day_heading(day_number(2024, 12, 31)), "Tue, 31. Dec");
    assert_eq!(day_heading(day_number(2000, 1, 1)), "Sat, 1. Jan");
    assert_eq!(day_heading(1), "Mon, 1. Jan");
}

#[test]
fn day_beyond_the_calendar_has_no_heading() {
    assert_eq!(day_heading(i32::MAX), "");
    assert_eq!(day_heading(i32::MIN), "");
}

#[test]
fn long_titles_are_cut_and_marked() {
    assert_eq!(fit_title("short"), "short");
    assert_eq!(fit_title("exactly sixteen!"), "exactly sixteen!");
    assert_eq!(fit_title("seventeen letters"), "seventeen letter>");
    assert_eq!(fit_title("a title that goes on and on"), "a title that goe>");
    assert_eq!(fit_title(""), "");
    // characters are counted, not bytes
    assert_eq!(fit_title("Müllabfuhr kömmt"), "Müllabfuhr kömmt");
    assert_eq!(fit_title("Müllabfuhr kömmt!"), "Müllabfuhr kömmt>");
}

#[test]
fn line_of_an_event() {
    assert_eq!(event_line(&event(Time::AllDay(5), "Holiday")), "Holiday");
    assert_eq!(event_line(&event(timed(5, 9 * 3600 + 5 * 60), "Dentist")), "09:05 Dentist");
    assert_eq!(event_line(&event(timed(5, 0), "Fireworks")), "00:00 Fireworks");
    assert_eq!(event_line(&event(timed(5, 86399), "Late")), "23:59 Late");
    assert_eq!(event_line(&event(timed(5, 17 * 3600 + 30 * 60), "Parents' evening")), "17:30 Parents' e>");
    assert_eq!(event_line(&event(Time::AllDay(5), "An all-day conference")), "An all-day confe>");
}

#[test]
fn line_of_an_event_at_no_time_of_day() {
    assert_eq!(event_line(&event(timed(5, 86400), "Dentist")), "Dentist");
    assert_eq!(event_line(&event(timed(5, u32::MAX), "Dentist")), "Dentist");
}

#[test]
fn rows_are_listed_day_by_day() {
    let events = vec![
        event(timed(9, 5), "a"),
        event(Time::AllDay(3), "b"),
        event(Time::AllDay(9), "c"),
        event(timed(3, 7), "d"),
    ];
    assert_eq!(
        list_rows(&events),
        vec![
            AgendaRow::Heading(3),
            AgendaRow::Entry(1),
            AgendaRow::Entry(3),
            AgendaRow::Heading(9),
            AgendaRow::Entry(0),
            AgendaRow::Entry(2),
        ]
    );
    assert_eq!(list_rows(&vec![]), vec![]);
}

#[test]
fn heights_of_the_calendar_column() {
    assert_eq!(
        (DATE_HEIGHT, DATE_EVENT_PADDING, EVENT_HEIGHT, EVENT_PADDING, TITLE_MAX_LENGTH),
        (32, 2, 24, 2, 16)
    );
}

#[test]
fn rows_are_placed_one_under_the_other() {
    let events = vec![
        event(Time::AllDay(3), "a"),
        event(timed(3, 7), "b"),
        event(Time::AllDay(4), "c"),
    ];
    let placed = |row, y| PlacedRow { row, y };
    assert_eq!(
        plan_agenda(&events, 10, 1000),
        vec![
            placed(AgendaRow::Heading(3), 10),
            placed(AgendaRow::Entry(0), 44),
            placed(AgendaRow::Entry(1), 70),
            placed(AgendaRow::Heading(4), 96),
            placed(AgendaRow::Entry(2), 130),
        ]
    );
}

#[test]
fn rows_end_with_the_first_that_finds_no_room() {
    let events = vec![
        event(Time::AllDay(3), "a"),
        event(timed(3, 7), "b"),
        event(Time::AllDay(4), "c"),
    ];
    // a heading needs room for an event under it, and a free row after that
    assert_eq!(plan_agenda(&events, 0, 58).len(), 0);
    assert_eq!(plan_agenda(&events, 0, 59).len(), 2);
    assert_eq!(plan_agenda(&events, 1, 59).len(), 0);
    // the second event starts at row 60 and needs rows up to 84
    assert_eq!(plan_agenda(&events, 0, 84).len(), 2);
    assert_eq!(plan_agenda(&events, 0, 85).len(), 3);
    // the second heading starts at row 86
    assert_eq!(plan_agenda(&events, 0, 144).len(), 3);
    assert_eq!(plan_agenda(&events, 0, 145).len(), 5);
    // an event without room ends the column: the next day is not shown either
    let many: Vec<_> = (0..3).map(|_| event(Time::AllDay(3), "x")).chain([event(Time::AllDay(4), "y")]).collect();
    assert_eq!(plan_agenda(&many, 0, 100).len(), 3);
    assert_eq!(plan_agenda(&events, 0, 0), vec![]);
    assert_eq!(plan_agenda(&events, usize::MAX, usize::MAX), vec![]);
    assert_eq!(plan_agenda(&events, usize::MAX - 60, usize::MAX).len(), 2);
}
