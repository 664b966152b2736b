//! The tick timer: it gathers the time that has passed and says when the
//! next movement tick is due.

use vstd::prelude::*;

verus! {

/// The time gathered after `micros` more microseconds on top of
/// `accumulated`. The timer holds at most `u64::MAX` microseconds.
pub open spec fn accumulate(accumulated: int, micros: int) -> int {
    if accumulated + micros > u64::MAX {
        u64::MAX as int
    } else {
        accumulated + micros
    }
}

/// Whether a tick is due after `accumulated` microseconds, for a tick
/// interval of `interval` microseconds. An interval that is not positive
/// makes a tick due at once.
pub open spec fn tick_due(accumulated: int, interval: int) -> bool {
    accumulated >= interval
}

/// Gathers elapsed time between movement ticks. Its value is the number of
/// microseconds gathered since the last tick.
#[derive(Clone, Copy, Debug)]
pub struct TickTimer {
    accumulated: u64,
}

impl View for TickTimer {
    type V = int;

    closed spec fn view(&self) -> int {
        self.accumulated as int
    }
}

impl TickTimer {
    /// A timer that has gathered no time.
    pub fn new() -> (timer: TickTimer)
        ensures
            timer@ == 0,
    {
        TickTimer { accumulated: 0 }
    }

    /// The microseconds gathered since the last tick.
    pub fn accumulated(&self) -> (r: u64)
        ensures
            r == self@,
    {
        self.accumulated
    }

    /// Adds `micros` microseconds of elapsed time.
    pub fn add_elapsed(&mut self, micros: u64)
        ensures
            final(self)@ == accumulate(old(self)@, micros as int),
    {
        self.accumulated = self.accumulated.saturating_add(micros);
    }

    /// Whether a tick is due for a tick interval of `interval` microseconds.
    pub fn is_due(&self, interval: i64) -> (due: bool)
        ensures
            due == tick_due(self@, interval as int),
    {
        interval <= 0 || self.accumulated >= interval as u64
    }

    /// Says whether a tick is due for a tick interval of `interval`
    /// microseconds, and if one is, starts gathering time anew.
    pub fn consume_tick_if_due(&mut self, interval: i64) -> (due: bool)
        ensures
            due == tick_due(old(self)@, interval as int),
            final(self)@ == if due { 0 } else { old(self)@ },
            0 <= final(self)@ <= u64::MAX,
    {
        if self.is_due(interval) {
            self.accumulated = 0;
            true
        } else {
            false
        }
    }
}

} // verus!
