//! Taking turns.
//!
//! Quotes and images are shown one after the other. What is shown stays for
//! a while; when its time is over, the next item of a list takes its place.
//! When the list is used up it has to be loaded again, which is not this
//! module's business: it says when that has to be done, and takes the new
//! list.

use vstd::prelude::*;

verus! {

/// What has to be done to have something to show.
#[derive(Copy, Clone, Debug, PartialEq, Eq, Structural)]
pub enum Turn {
    /// Nothing: the item to show is in place.
    Serve,
    /// The list is used up: load it again, then ask once more.
    Reload,
}

/// What a rotation is: the items that wait for their turn, the item whose
/// turn it is, and when its turn began.
pub struct RotationView<T> {
    pub waiting: Seq<T>,
    pub shown: Option<T>,
    pub shown_at: i64,
}

impl<T> RotationView<T> {
    /// At `now`, the item that is shown has been shown for no longer than
    /// `max_age`.
    pub open spec fn is_fresh(self, now: i64, max_age: i64) -> bool {
        self.shown is Some && now - self.shown_at <= max_age
    }

    /// The rotation after it was asked for a turn at `now`: as it was where
    /// the shown item is fresh or nothing waits, and else with the first
    /// item that waits shown in place of the last one.
    pub open spec fn turned(self, now: i64, max_age: i64) -> RotationView<T> {
        if self.is_fresh(now, max_age) || self.waiting.len() == 0 {
            self
        } else {
            RotationView {
                waiting: self.waiting.subrange(1, self.waiting.len() as int),
                shown: Some(self.waiting[0]),
                shown_at: now,
            }
        }
    }

    /// What a turn at `now` asks for: to load the list again where the shown
    /// item is not fresh and nothing waits, and nothing else.
    pub open spec fn turn(self, now: i64, max_age: i64) -> Turn {
        if !self.is_fresh(now, max_age) && self.waiting.len() == 0 {
            Turn::Reload
        } else {
            Turn::Serve
        }
    }
}

/// A list of items that are shown in turn, each for a while.
#[derive(Debug)]
pub struct Rotation<T> {
    waiting: Vec<T>,
    shown: Option<T>,
    shown_at: i64,
}

impl<T> View for Rotation<T> {
    type V = RotationView<T>;

    closed spec fn view(&self) -> RotationView<T> {
        RotationView { waiting: self.waiting@, shown: self.shown, shown_at: self.shown_at }
    }
}

impl<T> Rotation<T> {
    /// A rotation without items.
    pub fn new() -> (rotation: Rotation<T>)
        ensures
            rotation@.waiting.len() == 0,
            rotation@.shown is None,
    {
        Rotation { waiting: Vec::new(), shown: None, shown_at: 0 }
    }

    /// Sees to it that there is something to show at `now`, a time in
    /// seconds. An item that has been shown for more than `max_age` seconds
    /// gives way to the next one. Where none is left the answer is
    /// [`Turn::Reload`], and nothing changes.
    pub fn next(&mut self, now: i64, max_age: i64) -> (turn: Turn)
        ensures
            final(self)@ == old(self)@.turned(now, max_age),
            turn == old(self)@.turn(now, max_age),
            turn == Turn::Serve ==> final(self)@.shown is Some,
    {
        if self.shown.is_some() && now as i128 - self.shown_at as i128 <= max_age as i128 {
            return Turn::Serve;
        }
        if self.waiting.len() == 0 {
            return Turn::Reload;
        }
        let first = self.waiting.remove(0);
        self.shown = Some(first);
        self.shown_at = now;
        assert(self@.waiting =~= old(self)@.waiting.subrange(1, old(self)@.waiting.len() as int));
        Turn::Serve
    }

    /// Takes `items` as the list of what waits for its turn, in place of
    /// what waited before.
    pub fn reload(&mut self, items: Vec<T>)
        ensures
            final(self)@ == (RotationView { waiting: items@, ..old(self)@ }),
    {
        self.waiting = items;
    }

    /// The item whose turn it is.
    pub fn shown(&self) -> (item: Option<&T>)
        ensures
            item.is_some() == self@.shown.is_some(),
            item matches Some(shown) ==> self@.shown == Some(*shown),
    {
        self.shown.as_ref()
    }

    /// The number of items that wait for their turn.
    pub fn waiting(&self) -> (count: usize)
        ensures
            count == self@.waiting.len(),
    {
        self.waiting.len()
    }
}

} // verus!
