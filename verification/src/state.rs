//! The playtime ledger of one day, as the tracker writes it and the window
//! reads it.

use vstd::prelude::*;
use crate::ledger::{GameTimes, time_or_zero};

verus! {

/// Today's ledger: the day it is for and the seconds played per game.
pub struct TrackerState {
    pub date: String,
    pub times: GameTimes,
}

impl TrackerState {
    /// An empty ledger for the day `date`.
    pub fn new(date: String) -> (res: TrackerState)
        ensures
            res.date@ == date@,
            res.times@ == Map::<Seq<char>, u64>::empty(),
    {
        TrackerState { date, times: GameTimes::new() }
    }

    /// Sets the playtime of `name` back to zero, as the window's Reset
    /// button does.
    pub fn reset_game(&mut self, name: String)
        ensures
            final(self).date@ == old(self).date@,
            final(self).times@ == old(self).times@.insert(name@, 0),
    {
        self.times.insert(name, 0);
    }

    /// Adds `seconds` to the playtime of `name` (a game without any starts
    /// at zero) and returns the new total.
    pub fn add_playtime(&mut self, name: &String, seconds: u64) -> (total: u64)
        requires
            time_or_zero(old(self).times@, name@) + seconds <= u64::MAX,
        ensures
            total == time_or_zero(old(self).times@, name@) + seconds,
            final(self).times@ == old(self).times@.insert(name@, total),
            final(self).date@ == old(self).date@,
    {
        let total = self.times.time_of(name.as_str()) + seconds;
        self.times.insert(name.clone(), total);
        total
    }
}

/// The ledger to work with on the day `today`, given the one read from the
/// save file (if it could be read and parsed): that one if it is for
/// `today`, else an empty ledger for `today`.
pub fn load_state(saved: Option<TrackerState>, today: String) -> (res: TrackerState)
    ensures
        res.date@ == today@,
        res.times@ == (match saved {
            Some(s) => if s.date@ == today@ {
                s.times@
            } else {
                Map::<Seq<char>, u64>::empty()
            },
            None => Map::<Seq<char>, u64>::empty(),
        }),
{
    match saved {
        Some(s) => {
            if s.date == today {
                s
            } else {
                TrackerState::new(today)
            }
        },
        None => TrackerState::new(today),
    }
}

impl Clone for TrackerState {
    /// A copy of the ledger.
    fn clone(&self) -> (res: Self)
        ensures
            res.date@ == self.date@,
            res.times@ == self.times@,
    {
        TrackerState { date: self.date.clone(), times: self.times.clone() }
    }
}

} // verus!
