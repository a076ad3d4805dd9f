//! The calendar column: which days it shows and what it says of them.
//!
//! The column shows the days on which something takes place, the earliest
//! first. Each day has a heading, such as `Mon, 3. Feb`, and under it a line for
//! each event of the day. A line is the title of the event, after the time
//! of day at which it starts where it does not last the whole day. A long
//! line is cut off and marked.

use vstd::prelude::*;
use vstd::string::StringExecFns;
use vstd::seq_lib::{to_multiset_contains, to_multiset_insert, to_multiset_remove};
use crate::calendar::{lemma_not_after_total, lemma_not_after_transitive, Event, Time};

verus! {

/// The number of characters of a line that are shown.
pub const TITLE_MAX_LENGTH: usize = 16;

/// The heading of the day that is `day` days from 31 December of the year
/// before the year 1: the short name of its weekday, a comma, the day of the
/// month and a full stop, and the short name of its month. There is none for
/// a day that the calendar does not reach.
pub uninterp spec fn day_label_text(day: i32) -> Option<Seq<char>>;

/// The character for a digit.
pub open spec fn digit(value: u32) -> char {
    if value == 0 {
        '0'
    } else if value == 1 {
        '1'
    } else if value == 2 {
        '2'
    } else if value == 3 {
        '3'
    } else if value == 4 {
        '4'
    } else if value == 5 {
        '5'
    } else if value == 6 {
        '6'
    } else if value == 7 {
        '7'
    } else if value == 8 {
        '8'
    } else {
        '9'
    }
}

/// What a 24-hour clock shows `second_of_day` seconds after midnight: two
/// digits for the hour, a colon, and two digits for the minute. There is
/// nothing for a number that is no second of a day.
pub open spec fn clock_text(second_of_day: u32) -> Option<Seq<char>> {
    if second_of_day < 86400 {
        let hour = second_of_day / 3600;
        let minute = second_of_day % 3600 / 60;
        Some(
            seq![
                digit(hour / 10),
                digit(hour % 10),
                ':',
                digit(minute / 10),
                digit(minute % 10),
            ],
        )
    } else {
        None
    }
}

/// Formats a day with `chrono`: `NaiveDate::from_num_days_from_ce_opt`
/// makes the date, `NaiveDate::format` with `%a, %-d. %b` the heading. The
/// result depends on `day` alone, and is named [`day_label_text`].
#[verifier::external_body]
fn day_label(day: i32) -> (label: Option<String>)
    ensures
        label.is_some() == day_label_text(day).is_some(),
        label matches Some(text) ==> day_label_text(day) == Some(text@),
{
    match chrono::NaiveDate::from_num_days_from_ce_opt(day) {
        Some(date) => Some(date.format("%a, %-d. %b").to_string()),
        None => None,
    }
}

/// Formats a time of day with `chrono`:
/// `NaiveTime::from_num_seconds_from_midnight_opt` makes the time, which
/// there is for the seconds of a day, and `NaiveTime::format` with `%H:%M`
/// the text: hour and minute, two digits each. The result is taken to be
/// [`clock_text`].
#[verifier::external_body]
fn clock_label(second_of_day: u32) -> (label: Option<String>)
    ensures
        label.is_some() == clock_text(second_of_day).is_some(),
        label matches Some(text) ==> clock_text(second_of_day) == Some(text@),
{
    match chrono::NaiveTime::from_num_seconds_from_midnight_opt(second_of_day, 0) {
        Some(time) => Some(time.format("%H:%M").to_string()),
        None => None,
    }
}

/// The heading for a day, given what the calendar calls the day: that, or
/// nothing where the calendar does not reach the day.
pub open spec fn heading_from(label: Option<Seq<char>>) -> Seq<char> {
    match label {
        Some(text) => text,
        None => Seq::empty(),
    }
}

/// The heading of a day in the calendar column.
pub fn day_heading(day: i32) -> (heading: String)
    ensures
        heading@ == heading_from(day_label_text(day)),
{
    match day_label(day) {
        Some(text) => text,
        None => String::new(),
    }
}

/// A line as it is shown: the first sixteen characters and a mark, where
/// the line is longer than that.
pub open spec fn fitted_title(title: Seq<char>) -> Seq<char> {
    if title.len() > TITLE_MAX_LENGTH {
        title.subrange(0, TITLE_MAX_LENGTH as int) + ">"@
    } else {
        title
    }
}

/// Cuts a line to the length that is shown; see [`fitted_title`].
pub fn fit_title(title: &str) -> (fitted: String)
    ensures
        fitted@ == fitted_title(title@),
{
    if title.unicode_len() > TITLE_MAX_LENGTH {
        let start = title.substring_char(0, TITLE_MAX_LENGTH);
        String::from_str(start).concat(">")
    } else {
        String::from_str(title)
    }
}

/// The line of an event before it is cut, given what the clock shows when
/// the event starts: the title, after the clock and a space where the
/// event starts at a moment that the clock can show.
pub open spec fn line_from(time: Time, clock: Option<Seq<char>>, title: Seq<char>) -> Seq<char> {
    match (time, clock) {
        (Time::Timed(_, _), Some(text)) => text + " "@ + title,
        _ => title,
    }
}

/// What the clock shows when an event starts, for an event that starts at
/// a moment.
pub open spec fn start_clock(time: Time) -> Option<Seq<char>> {
    match time {
        Time::AllDay(_) => None,
        Time::Timed(start, _) => clock_text(start.second_of_day),
    }
}

/// The line of an event in the calendar column.
pub fn event_line(event: &Event) -> (line: String)
    ensures
        line@ == fitted_title(line_from(event.time, start_clock(event.time), event.title@)),
{
    match event.time {
        Time::AllDay(_) => fit_title(event.title.as_str()),
        Time::Timed(start, _) => {
            match clock_label(start.second_of_day) {
                Some(clock) => {
                    let text = clock.concat(" ").concat(event.title.as_str());
                    fit_title(text.as_str())
                },
                None => fit_title(event.title.as_str()),
            }
        },
    }
}

/// No event is after the one that follows it.
pub open spec fn in_order(events: Seq<Event>) -> bool {
    forall|i: int|
        0 <= i < events.len() - 1 ==> (#[trigger] events[i]).time.not_after(events[i + 1].time)
}

/// `output` holds the events of `input` in another order, and
/// `origin` tells the place in `input` from which each of them comes. Of
/// two events of which the later one in `output` is not after the earlier
/// one, the earlier one was the earlier one in `input` as well.
pub open spec fn is_stable_order(input: Seq<Event>, output: Seq<Event>, origin: Seq<int>) -> bool {
    &&& origin.len() == output.len()
    &&& output.len() == input.len()
    &&& forall|k: int|
        0 <= k < output.len() ==> 0 <= #[trigger] origin[k] < input.len() && output[k]
            == input[origin[k]]
    &&& forall|a: int, b: int|
        0 <= a < b < output.len() ==> #[trigger] origin[a] != #[trigger] origin[b]
    &&& forall|a: int, b: int|
        0 <= a < b < output.len() && output[b].time.not_after(output[a].time)
            ==> #[trigger] origin[a] < #[trigger] origin[b]
}

/// Puts events in the order of their times, the earliest first. Events of
/// which none is after the other stay in the order in which they came.
pub fn sort_events(events: Vec<Event>) -> (sorted: Vec<Event>)
    ensures
        sorted@.to_multiset() == events@.to_multiset(),
        in_order(sorted@),
        exists|origin: Seq<int>| is_stable_order(events@, sorted@, origin),
{
    let mut sorted = events;
    let ghost mut origin: Seq<int> = Seq::new(events@.len(), |k: int| k);
    if sorted.len() < 2 {
        assert(is_stable_order(events@, sorted@, origin));
        return sorted;
    }
    let mut i: usize = 1;
    while i < sorted.len()
        invariant
            1 <= i <= sorted.len(),
            sorted@.to_multiset() == events@.to_multiset(),
            in_order(sorted@.take(i as int)),
            origin.len() == sorted.len(),
            sorted.len() == events.len(),
            forall|k: int|
                0 <= k < sorted.len() ==> 0 <= #[trigger] origin[k] < events.len() && sorted[k]
                    == events[origin[k]],
            forall|k: int| i <= k < sorted.len() ==> #[trigger] origin[k] == k,
            forall|k: int| 0 <= k < i ==> #[trigger] origin[k] < i,
            forall|a: int, b: int|
                0 <= a < b < i ==> #[trigger] origin[a] != #[trigger] origin[b],
            forall|a: int, b: int|
                0 <= a < b < i && sorted[b].time.not_after(sorted[a].time) ==> #[trigger] origin[a]
                    < #[trigger] origin[b],
        decreases sorted.len() - i,
    {
        let ghost before = sorted@;
        let ghost origin_before = origin;
        let event = sorted.remove(i);
        proof {
            to_multiset_remove(before, i as int);
        }
        let ghost rest = sorted@;
        let mut at: usize = i;
        while at > 0 && !sorted[at - 1].time.is_not_after(&event.time)
            invariant
                at <= i,
                i <= sorted.len(),
                sorted@ == rest,
                forall|k: int| at <= k < i ==> !(#[trigger] rest[k]).time.not_after(event.time),
            decreases at,
        {
            at -= 1;
        }
        sorted.insert(at, event);
        proof {
            origin = origin_before.remove(i as int).insert(at as int, i as int);
            to_multiset_insert(rest, at as int, event);
            assert(sorted@.to_multiset() =~= before.to_multiset()) by {
                assert(before[i as int] == event);
                assert(before.contains(event));
                to_multiset_contains(before, event);
            }
            let old_run = before.take(i as int);
            let run = sorted@.take(i + 1);
            assert forall|k: int| 0 <= k < run.len() - 1 implies (#[trigger] run[k]).time.not_after(
                run[k + 1].time,
            ) by {
                if k + 1 < at {
                    assert(old_run[k].time.not_after(old_run[k + 1].time));
                } else if k + 1 == at {
                    assert(run[k] == rest[at - 1]);
                } else if k == at {
                    assert(run[k + 1] == rest[k]);
                    lemma_not_after_total(event.time, rest[k].time);
                } else {
                    assert(run[k] == old_run[k - 1]);
                    assert(run[k + 1] == old_run[k]);
                    assert(old_run[k - 1].time.not_after(old_run[k].time));
                }
            }
            // where each event of the new run comes from in the old one
            let from = |k: int| -> int {
                if k < at {
                    k
                } else if k == at {
                    i as int
                } else if k <= i {
                    k - 1
                } else {
                    k
                }
            };
            assert forall|k: int| 0 <= k < sorted.len() implies #[trigger] origin[k]
                == origin_before[from(k)] && sorted@[k] == before[from(k)] by {}
            assert forall|a: int, b: int| 0 <= a < b < i + 1 implies #[trigger] origin[a]
                != #[trigger] origin[b] by {
                if a != at && b != at {
                    assert(origin_before[from(a)] != origin_before[from(b)]);
                } else if a == at {
                    assert(origin_before[from(b)] < i);
                } else {
                    assert(origin_before[from(a)] < i);
                }
            }
            assert forall|a: int, b: int|
                0 <= a < b < i + 1 && sorted@[b].time.not_after(sorted@[a].time) implies #[trigger] origin[a]
                < #[trigger] origin[b] by {
                if a != at && b != at {
                    assert(before[from(b)].time.not_after(before[from(a)].time));
                    assert(origin_before[from(a)] < origin_before[from(b)]);
                } else if a == at {
                    assert(sorted@[b] == rest[b - 1]);
                    assert(!rest[b - 1].time.not_after(event.time));
                } else {
                    assert(origin_before[from(a)] < i);
                }
            }
        }
        i += 1;
    }
    assert(sorted@.take(sorted.len() as int) =~= sorted@);
    assert(is_stable_order(events@, sorted@, origin));
    sorted
}

/// The days of all the events agree with their instants; see
/// [`Time::agrees_with`].
pub open spec fn times_agree(events: Seq<Event>) -> bool {
    forall|i: int, j: int|
        0 <= i < events.len() && 0 <= j < events.len() ==> (#[trigger] events[i]).time.agrees_with(
            (#[trigger] events[j]).time,
        )
}

/// Events in order are sorted: none is after any that comes later, where
/// the days of the events agree with their instants.
pub proof fn lemma_in_order_sorted(events: Seq<Event>, i: int, j: int)
    requires
        in_order(events),
        times_agree(events),
        0 <= i <= j < events.len(),
    ensures
        events[i].time.not_after(events[j].time),
    decreases j - i,
{
    if i == j {
        lemma_not_after_total(events[i].time, events[j].time);
    } else {
        lemma_in_order_sorted(events, i, j - 1);
        assert(events[j - 1].time.not_after(events[j].time));
        lemma_not_after_transitive(events[i].time, events[j - 1].time, events[j].time);
    }
}

/// The numbers rise from each to the next.
pub open spec fn strictly_ascending(days: Seq<i32>) -> bool {
    forall|i: int, j: int| 0 <= i < j < days.len() ==> days[i] < days[j]
}

/// Something takes place on `day`.
pub open spec fn has_day(events: Seq<Event>, day: i32) -> bool {
    exists|i: int| 0 <= i < events.len() && (#[trigger] events[i]).time.day() == day
}

/// `days` are the days on which something takes place, each once, the
/// earliest first.
pub open spec fn is_day_list(days: Seq<i32>, events: Seq<Event>) -> bool {
    &&& strictly_ascending(days)
    &&& forall|day: i32| #[trigger] days.contains(day) <==> has_day(events, day)
}

/// The days on which something takes place, each once, the earliest first.
/// There is one such list; see [`lemma_day_list_unique`].
pub open spec fn days_of(events: Seq<Event>) -> Seq<i32> {
    choose|days: Seq<i32>| is_day_list(days, events)
}

/// The days on which something takes place, each once, the earliest first.
pub fn event_days(events: &Vec<Event>) -> (days: Vec<i32>)
    ensures
        is_day_list(days@, events@),
        days@ == days_of(events@),
{
    let mut days: Vec<i32> = Vec::new();
    let mut i: usize = 0;
    while i < events.len()
        invariant
            i <= events.len(),
            is_day_list(days@, events@.take(i as int)),
        decreases events.len() - i,
    {
        let day = events[i].time.start_day();
        let mut at: usize = 0;
        while at < days.len() && days[at] < day
            invariant
                at <= days.len(),
                strictly_ascending(days@),
                forall|k: int| 0 <= k < at ==> days[k] < day,
            decreases days.len() - at,
        {
            at += 1;
        }
        let ghost before = days@;
        let ghost seen = events@.take(i as int);
        let ghost more = events@.take(i + 1);
        proof {
            assert(more[i as int] == events@[i as int]);
            assert forall|d: i32| has_day(more, d) <==> (d == day || has_day(seen, d)) by {
                if has_day(more, d) {
                    let k = choose|k: int| 0 <= k < more.len() && (#[trigger] more[k]).time.day() == d;
                    if k < i {
                        assert(seen[k] == more[k]);
                    }
                }
                if has_day(seen, d) {
                    let k = choose|k: int| 0 <= k < seen.len() && (#[trigger] seen[k]).time.day() == d;
                    assert(more[k] == seen[k]);
                }
            }
        }
        if at < days.len() && days[at] == day {
            proof {
                assert(before.contains(day));
            }
        } else {
            days.insert(at, day);
            proof {
                assert forall|a: int, b: int| 0 <= a < b < days@.len() implies days@[a] < days@[b] by {
                    if a < at && b > at {
                        assert(before[a] < before[b - 1]);
                    }
                }
                assert forall|d: i32| #[trigger] days@.contains(d) <==> (d == day || before.contains(d)) by {
                    if days@.contains(d) {
                        let k = choose|k: int| 0 <= k < days@.len() && days@[k] == d;
                        if k < at {
                            assert(before[k] == d);
                        } else if k > at {
                            assert(before[k - 1] == d);
                        }
                    }
                    if before.contains(d) {
                        let k = choose|k: int| 0 <= k < before.len() && before[k] == d;
                        if k < at {
                            assert(days@[k] == d);
                        } else {
                            assert(days@[k + 1] == d);
                        }
                    }
                    if d == day {
                        assert(days@[at as int] == d);
                    }
                }
            }
        }
        i += 1;
    }
    assert(events@.take(events.len() as int) =~= events@);
    proof {
        lemma_day_list_unique(days@, days_of(events@), events@);
    }
    days
}

/// There is one list of the days on which something takes place.
pub proof fn lemma_day_list_unique(first: Seq<i32>, second: Seq<i32>, events: Seq<Event>)
    requires
        is_day_list(first, events),
        is_day_list(second, events),
    ensures
        first == second,
{
    lemma_same_members_unique(first, second);
}

/// Two rising lists with the same members are the same list.
proof fn lemma_same_members_unique(first: Seq<i32>, second: Seq<i32>)
    requires
        strictly_ascending(first),
        strictly_ascending(second),
        forall|day: i32| #[trigger] first.contains(day) <==> second.contains(day),
    ensures
        first == second,
    decreases first.len(),
{
    if first.len() == 0 {
        if second.len() > 0 {
            assert(second.contains(second[0]));
            assert(first.contains(second[0]));
        }
        assert(first =~= second);
    } else {
        assert(first.contains(first[0]));
        assert(second.contains(first[0]));
        let at = choose|k: int| 0 <= k < second.len() && second[k] == first[0];
        assert(second.contains(second[0]));
        assert(first.contains(second[0]));
        let back = choose|k: int| 0 <= k < first.len() && first[k] == second[0];
        if at > 0 {
            assert(second[0] < second[at]);
            if back > 0 {
                assert(first[0] < first[back]);
            }
        }
        assert(at == 0);
        let first_rest = first.subrange(1, first.len() as int);
        let second_rest = second.subrange(1, second.len() as int);
        assert forall|day: i32| #[trigger] first_rest.contains(day) <==> second_rest.contains(day) by {
            if first_rest.contains(day) {
                let k = choose|k: int| 0 <= k < first_rest.len() && first_rest[k] == day;
                assert(first[k + 1] == day);
                assert(first[0] < first[k + 1]);
                assert(first.contains(day));
                assert(second.contains(day));
                let m = choose|m: int| 0 <= m < second.len() && second[m] == day;
                assert(m > 0);
                assert(second_rest[m - 1] == day);
            }
            if second_rest.contains(day) {
                let k = choose|k: int| 0 <= k < second_rest.len() && second_rest[k] == day;
                assert(second[k + 1] == day);
                assert(second[0] < second[k + 1]);
                assert(second.contains(day));
                assert(first.contains(day));
                let m = choose|m: int| 0 <= m < first.len() && first[m] == day;
                assert(m > 0);
                assert(first_rest[m - 1] == day);
            }
        }
        lemma_same_members_unique(first_rest, second_rest);
        assert(first =~= seq![first[0]] + first_rest);
        assert(second =~= seq![second[0]] + second_rest);
    }
}

/// The height of the heading of a day.
pub const DATE_HEIGHT: usize = 32;

/// The space between the heading of a day and the first event under it.
pub const DATE_EVENT_PADDING: usize = 2;

/// The height of the line of an event.
pub const EVENT_HEIGHT: usize = 24;

/// The space between the lines of two events.
pub const EVENT_PADDING: usize = 2;

/// A row of the calendar column.
#[derive(Copy, Clone, Debug, PartialEq, Eq, Structural)]
pub enum AgendaRow {
    /// The heading of a day.
    Heading(i32),
    /// The line of an event, given by its place among the events.
    Entry(usize),
}

/// A row of the calendar column and the row of the canvas at which it
/// starts.
#[derive(Copy, Clone, Debug, PartialEq, Eq, Structural)]
pub struct PlacedRow {
    pub row: AgendaRow,
    pub y: usize,
}

/// The lines of the events of `day` among the first `count` events, in the
/// order of the events.
pub open spec fn entries_among(events: Seq<Event>, day: i32, count: int) -> Seq<AgendaRow>
    decreases count,
{
    if count <= 0 {
        Seq::empty()
    } else {
        let before = entries_among(events, day, count - 1);
        if events[count - 1].time.day() == day {
            before.push(AgendaRow::Entry((count - 1) as usize))
        } else {
            before
        }
    }
}

/// The rows of a day: its heading, then the lines of its events.
pub open spec fn day_rows(events: Seq<Event>, day: i32) -> Seq<AgendaRow> {
    seq![AgendaRow::Heading(day)] + entries_among(events, day, events.len() as int)
}

/// The rows of `days`, day after day.
pub open spec fn rows_of_days(events: Seq<Event>, days: Seq<i32>) -> Seq<AgendaRow>
    decreases days.len(),
{
    if days.len() == 0 {
        Seq::empty()
    } else {
        rows_of_days(events, days.drop_last()) + day_rows(events, days.last())
    }
}

/// All the rows that the events ask for: for each day on which something
/// takes place, the earliest first, its heading and the lines of its events.
pub open spec fn listing(events: Seq<Event>) -> Seq<AgendaRow> {
    rows_of_days(events, days_of(events))
}

/// The height that a row takes with the space under it.
pub open spec fn row_step(row: AgendaRow) -> int {
    match row {
        AgendaRow::Heading(_) => DATE_HEIGHT + DATE_EVENT_PADDING,
        AgendaRow::Entry(_) => EVENT_HEIGHT + EVENT_PADDING,
    }
}

/// The height of the area that shows a row.
pub open spec fn row_height(row: AgendaRow) -> int {
    match row {
        AgendaRow::Heading(_) => DATE_HEIGHT as int,
        AgendaRow::Entry(_) => EVENT_HEIGHT as int,
    }
}

/// A row that starts at row `y` of a canvas of `room` rows finds room. A
/// heading is shown only where the line of an event has room under it; and
/// whatever is shown leaves the last row of the canvas free.
pub open spec fn row_fits(row: AgendaRow, y: int, room: int) -> bool {
    match row {
        AgendaRow::Heading(_) => y + DATE_HEIGHT + DATE_EVENT_PADDING + EVENT_HEIGHT < room,
        AgendaRow::Entry(_) => y + EVENT_HEIGHT < room,
    }
}

/// The rows from number `from` on, one under the other from row `y` of the
/// canvas, up to the first that does not find room.
pub open spec fn placed_from(rows: Seq<AgendaRow>, from: int, y: int, room: int) -> Seq<PlacedRow>
    decreases rows.len() - from,
{
    if from < 0 || from >= rows.len() || !row_fits(rows[from], y, room) {
        Seq::empty()
    } else {
        seq![PlacedRow { row: rows[from], y: y as usize }] + placed_from(
            rows,
            from + 1,
            y + row_step(rows[from]),
            room,
        )
    }
}

/// What the calendar column shows on a canvas of `room` rows, from row
/// `start` on: the rows that the events ask for, up to the first that does
/// not find room.
pub open spec fn agenda(events: Seq<Event>, start: int, room: int) -> Seq<PlacedRow> {
    placed_from(listing(events), 0, start, room)
}

/// A row belongs to the events: the event of a line is one of them.
pub open spec fn row_of(events: Seq<Event>, row: AgendaRow) -> bool {
    row matches AgendaRow::Entry(event) ==> event < events.len()
}

/// All the rows that the events ask for; see [`listing`].
pub fn list_rows(events: &Vec<Event>) -> (rows: Vec<AgendaRow>)
    ensures
        rows@ == listing(events@),
        forall|k: int| 0 <= k < rows.len() ==> row_of(events@, #[trigger] rows[k]),
{
    let days = event_days(events);
    let mut rows: Vec<AgendaRow> = Vec::new();
    let mut d: usize = 0;
    assert(days@.take(0) =~= Seq::empty());
    while d < days.len()
        invariant
            d <= days.len(),
            rows@ == rows_of_days(events@, days@.take(d as int)),
            forall|k: int| 0 <= k < rows.len() ==> row_of(events@, #[trigger] rows[k]),
        decreases days.len() - d,
    {
        let day = days[d];
        let ghost before = rows@;
        rows.push(AgendaRow::Heading(day));
        let mut e: usize = 0;
        while e < events.len()
            invariant
                e <= events.len(),
                rows@ == before + seq![AgendaRow::Heading(day)] + entries_among(
                    events@,
                    day,
                    e as int,
                ),
                forall|k: int| 0 <= k < rows.len() ==> row_of(events@, #[trigger] rows[k]),
            decreases events.len() - e,
        {
            if events[e].time.start_day() == day {
                rows.push(AgendaRow::Entry(e));
            }
            e += 1;
        }
        proof {
            let more = days@.take(d + 1);
            assert(more.drop_last() =~= days@.take(d as int));
            assert(more.last() == day);
            assert(rows@ =~= rows_of_days(events@, more));
        }
        d += 1;
    }
    assert(days@.take(days.len() as int) =~= days@);
    rows
}

/// What the calendar column shows; see [`agenda`].
pub fn plan_agenda(events: &Vec<Event>, start: usize, room: usize) -> (rows: Vec<PlacedRow>)
    ensures
        rows@ == agenda(events@, start as int, room as int),
        forall|k: int|
            0 <= k < rows.len() ==> row_of(events@, (#[trigger] rows[k]).row) && row_fits(
                rows[k].row,
                rows[k].y as int,
                room as int,
            ),
{
    let all = list_rows(events);
    let mut rows: Vec<PlacedRow> = Vec::new();
    let mut y = start;
    let mut k: usize = 0;
    let mut full = false;
    while k < all.len() && !full
        invariant
            k <= all.len(),
            all@ == listing(events@),
            forall|i: int| 0 <= i < all.len() ==> row_of(events@, #[trigger] all[i]),
            agenda(events@, start as int, room as int) == rows@ + (if full {
                Seq::empty()
            } else {
                placed_from(all@, k as int, y as int, room as int)
            }),
            forall|i: int|
                0 <= i < rows.len() ==> row_of(events@, (#[trigger] rows[i]).row) && row_fits(
                    rows[i].row,
                    rows[i].y as int,
                    room as int,
                ),
        decreases all.len() - k, (if full { 0int } else { 1int }),
    {
        let row = all[k];
        let (needed, step) = match row {
            AgendaRow::Heading(_) => (
                DATE_HEIGHT + DATE_EVENT_PADDING + EVENT_HEIGHT,
                DATE_HEIGHT + DATE_EVENT_PADDING,
            ),
            AgendaRow::Entry(_) => (EVENT_HEIGHT, EVENT_HEIGHT + EVENT_PADDING),
        };
        if room > needed && y < room - needed {
            let ghost before = rows@;
            rows.push(PlacedRow { row, y });
            proof {
                assert(seq![PlacedRow { row, y }] + placed_from(all@, k + 1, y + step, room as int)
                    =~= placed_from(all@, k as int, y as int, room as int));
                assert(rows@ + placed_from(all@, k + 1, y + step, room as int) =~= before
                    + placed_from(all@, k as int, y as int, room as int));
            }
            k += 1;
            match y.checked_add(step) {
                Some(next) => {
                    y = next;
                },
                None => {
                    proof {
                        assert(placed_from(all@, k as int, y + step, room as int) =~= Seq::empty());
                    }
                    full = true;
                },
            }
        } else {
            proof {
                assert(placed_from(all@, k as int, y as int, room as int) =~= Seq::empty());
            }
            full = true;
        }
    }
    assert(rows@ + Seq::<PlacedRow>::empty() =~= rows@);
    rows
}

} // verus!
