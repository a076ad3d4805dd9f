//! Calendar events and their order.
//!
//! An event lasts a whole day or starts at a moment. Events are ordered by
//! when they start, and on one day the events that last the whole day come
//! before those that start at a moment.

use std::cmp::Ordering;
use vstd::prelude::*;

verus! {

/// A moment, as the calendar of the place where the dashboard hangs shows it.
#[derive(Copy, Clone, Debug, PartialEq, Eq, Structural)]
pub struct Moment {
    /// The day, counted from 1 January of the year 1, which is day 1.
    pub day: i32,
    /// The seconds since midnight of that day, on a local clock.
    pub second_of_day: u32,
    /// The seconds since 1 January 1970, 0:00 UTC.
    pub timestamp: i64,
    /// The nanoseconds since the last whole second.
    pub nanos: u32,
}

/// A length of time.
#[derive(Copy, Clone, Debug, PartialEq, Eq, Structural)]
pub struct Span {
    pub seconds: i64,
    pub nanos: i32,
}

/// When an event takes place.
#[derive(Copy, Clone, Debug, PartialEq, Eq, Structural)]
pub enum Time {
    /// The whole of a day; the day is counted from 1 January of the year 1,
    /// which is day 1.
    AllDay(i32),
    /// From a moment on, for a length of time.
    Timed(Moment, Span),
}

/// Something that takes place at some time.
#[derive(Clone, Debug)]
pub struct Event {
    pub time: Time,
    pub title: String,
}

impl Moment {
    /// Which of two moments comes first.
    pub open spec fn order(self, other: Moment) -> Ordering {
        if self.timestamp < other.timestamp {
            Ordering::Less
        } else if self.timestamp > other.timestamp {
            Ordering::Greater
        } else if self.nanos < other.nanos {
            Ordering::Less
        } else if self.nanos > other.nanos {
            Ordering::Greater
        } else {
            Ordering::Equal
        }
    }

    /// This moment is not later than the other one.
    pub open spec fn not_after(self, other: Moment) -> bool {
        self.order(other) != Ordering::Greater
    }
}

impl Time {
    /// The day on which this time starts.
    pub open spec fn day(self) -> i32 {
        match self {
            Time::AllDay(day) => day,
            Time::Timed(start, _) => start.day,
        }
    }

    /// Which of two times comes first. Whole days are ordered by day and
    /// moments by the instant; a whole day comes before every moment of that
    /// day. How long an event lasts plays no part.
    pub open spec fn order(self, other: Time) -> Ordering {
        match (self, other) {
            (Time::AllDay(first), Time::AllDay(second)) => if first < second {
                Ordering::Less
            } else if first > second {
                Ordering::Greater
            } else {
                Ordering::Equal
            },
            (Time::Timed(first, _), Time::Timed(second, _)) => first.order(second),
            (Time::AllDay(day), Time::Timed(start, _)) => if day <= start.day {
                Ordering::Less
            } else {
                Ordering::Greater
            },
            (Time::Timed(start, _), Time::AllDay(day)) => if start.day < day {
                Ordering::Less
            } else {
                Ordering::Greater
            },
        }
    }

    /// This time is not after the other one.
    pub open spec fn not_after(self, other: Time) -> bool {
        self.order(other) != Ordering::Greater
    }

    /// The days of these two times are in the order of their instants,
    /// where both are moments. Moments taken from one clock are so.
    pub open spec fn agrees_with(self, other: Time) -> bool {
        match (self, other) {
            (Time::Timed(first, _), Time::Timed(second, _)) => {
                &&& first.not_after(second) ==> first.day <= second.day
                &&& second.not_after(first) ==> second.day <= first.day
            },
            _ => true,
        }
    }
}

impl Moment {
    /// Computes [`Moment::order`].
    pub fn compare(&self, other: &Moment) -> (order: Ordering)
        ensures
            order == self.order(*other),
    {
        if self.timestamp < other.timestamp {
            Ordering::Less
        } else if self.timestamp > other.timestamp {
            Ordering::Greater
        } else if self.nanos < other.nanos {
            Ordering::Less
        } else if self.nanos > other.nanos {
            Ordering::Greater
        } else {
            Ordering::Equal
        }
    }
}

impl Time {
    /// The day on which this time starts.
    pub fn start_day(&self) -> (day: i32)
        ensures
            day == self.day(),
    {
        match self {
            Time::AllDay(day) => *day,
            Time::Timed(start, _) => start.day,
        }
    }

    /// Which of two times comes first; see [`Time::order`].
    pub fn compare(&self, other: &Time) -> (order: Ordering)
        ensures
            order == self.order(*other),
    {
        match (self, other) {
            (Time::AllDay(first), Time::AllDay(second)) => {
                if *first < *second {
                    Ordering::Less
                } else if *first > *second {
                    Ordering::Greater
                } else {
                    Ordering::Equal
                }
            },
            (Time::Timed(first, _), Time::Timed(second, _)) => first.compare(second),
            (Time::AllDay(day), Time::Timed(start, _)) => {
                if *day <= start.day {
                    Ordering::Less
                } else {
                    Ordering::Greater
                }
            },
            (Time::Timed(start, _), Time::AllDay(day)) => {
                if start.day < *day {
                    Ordering::Less
                } else {
                    Ordering::Greater
                }
            },
        }
    }
}

impl Time {
    /// Whether this time is not after the other one.
    pub fn is_not_after(&self, other: &Time) -> (first: bool)
        ensures
            first == self.not_after(*other),
    {
        match self.compare(other) {
            Ordering::Greater => false,
            _ => true,
        }
    }
}

/// Of two times, one is not after the other.
pub proof fn lemma_not_after_total(first: Time, second: Time)
    ensures
        first.not_after(second) || second.not_after(first),
{
}

/// What is not after a second time, which is not after a third, is not
/// after the third, where the days of the three agree with their instants.
pub proof fn lemma_not_after_transitive(first: Time, second: Time, third: Time)
    requires
        first.agrees_with(second),
        second.agrees_with(third),
        first.agrees_with(third),
        first.not_after(second),
        second.not_after(third),
    ensures
        first.not_after(third),
{
}

/// The reverse of an order.
pub open spec fn reversed(order: Ordering) -> Ordering {
    match order {
        Ordering::Less => Ordering::Greater,
        Ordering::Equal => Ordering::Equal,
        Ordering::Greater => Ordering::Less,
    }
}

/// A whole day comes before every moment of that day.
pub proof fn lemma_all_day_first(start: Moment, span: Span)
    ensures
        Time::AllDay(start.day).order(Time::Timed(start, span)) == Ordering::Less,
        Time::Timed(start, span).order(Time::AllDay(start.day)) == Ordering::Greater,
{
}

/// Taken the other way round, two times are in the reverse order; a time
/// is neither before nor after itself.
pub proof fn lemma_order_reverses(first: Time, second: Time)
    ensures
        second.order(first) == reversed(first.order(second)),
        first.order(first) == Ordering::Equal,
{
}

/// The order is transitive on times whose days agree with their instants:
/// what is not after a second time, which is not after a third, is not
/// after the third.
pub proof fn lemma_order_transitive(first: Time, second: Time, third: Time)
    requires
        first.agrees_with(second),
        second.agrees_with(third),
        first.agrees_with(third),
        first.order(second) != Ordering::Greater,
        second.order(third) != Ordering::Greater,
    ensures
        first.order(third) != Ordering::Greater,
        first.order(second) == Ordering::Less || second.order(third) == Ordering::Less
            ==> first.order(third) == Ordering::Less,
{
}

} // verus!
