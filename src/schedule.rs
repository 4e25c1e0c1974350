//! Countdown timers that gate the periodic work of a tick-driven loop.

use vstd::prelude::*;

verus! {

/// Period of the room snapshots, in microseconds.
pub const ROOM_INFO_PERIOD_US: u64 = 5_000_000;

/// Period of the play snapshots, in microseconds.
pub const PLAY_INFO_PERIOD_US: u64 = 1_000_000;

/// Period of a client's room-list requests, in microseconds.
pub const GET_ROOMS_PERIOD_US: u64 = 5_000_000;

/// A countdown decremented by the time each tick took and reset to its period
/// after it fires. A new one fires on the first tick that takes any time.
#[derive(Debug, Clone, Copy, PartialEq, Eq, Structural)]
pub struct Cooldown {
    /// Time left before the next firing, in microseconds.
    pub remaining_us: u64,
    /// Time between firings, in microseconds.
    pub period_us: u64,
}

impl Cooldown {
    /// A countdown of the given period that fires on the first tick.
    pub fn new(period_us: u64) -> (r: Cooldown)
        ensures
            r.remaining_us == 0,
            r.period_us == period_us,
    {
        Cooldown { remaining_us: 0, period_us }
    }

    /// Advances the countdown by a tick of `elapsed_us` microseconds and
    /// returns whether it fired: it fires when the tick outlasts the time
    /// left, and then starts a full period again.
    pub fn tick(&mut self, elapsed_us: u64) -> (fired: bool)
        ensures
            fired == (elapsed_us > old(self).remaining_us),
            final(self).period_us == old(self).period_us,
            final(self).remaining_us == if fired {
                old(self).period_us
            } else {
                (old(self).remaining_us - elapsed_us) as u64
            },
    {
        if elapsed_us > self.remaining_us {
            self.remaining_us = self.period_us;
            true
        } else {
            self.remaining_us = self.remaining_us - elapsed_us;
            false
        }
    }
}

} // verus!
