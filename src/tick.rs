//! The tick clock: the instants that bound the current tick.

use vstd::prelude::*;

verus! {

/// The tick cadence, in milliseconds (20 ticks per second).
pub const WORK_INTERVAL_MS: i64 = 50;

/// The start of the previous tick and of the current one, in milliseconds
/// since the Unix epoch.
#[derive(Clone, Copy, Debug)]
pub struct TickClock {
    pub last_tick: i64,
    pub current_tick: i64,
}

impl TickClock {
    /// A clock started at `now`, as if a tick had begun one interval ago
    /// (or at the earliest representable instant, if that is later).
    pub fn new(now: i64) -> (r: Self)
        ensures
            r.current_tick == now,
            r.last_tick == if now >= i64::MIN + WORK_INTERVAL_MS {
                now - WORK_INTERVAL_MS
            } else {
                i64::MIN as int
            },
    {
        let last_tick = if now >= i64::MIN + WORK_INTERVAL_MS {
            now - WORK_INTERVAL_MS
        } else {
            i64::MIN
        };
        TickClock { last_tick, current_tick: now }
    }

    /// Begins a tick at `now`: the current tick becomes the last one.
    pub fn advance(&mut self, now: i64)
        ensures
            final(self).last_tick == old(self).current_tick,
            final(self).current_tick == now,
    {
        self.last_tick = self.current_tick;
        self.current_tick = now;
    }
}

} // verus!
