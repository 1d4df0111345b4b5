//! Spacing out input events: an event is passed on only where enough time has
//! gone by since the last one passed on, so key repeats do not flood the screen.
use vstd::prelude::*;

verus! {

/// The least time between two events passed on, in milliseconds.
pub const MIN_EVENT_SPACING_MS: u64 = 100;

/// Remembers when the last event was passed on.
pub struct Throttle {
    /// When the last event was passed on, in milliseconds; none before the first.
    pub last_accepted_ms: Option<u64>,
}

/// Whether an event at `now_ms` is passed on after one passed on at `last`.
pub open spec fn spaced(last: Option<u64>, now_ms: u64) -> bool {
    match last {
        None => true,
        Some(t) => now_ms >= t && now_ms - t >= MIN_EVENT_SPACING_MS,
    }
}

impl Throttle {
    /// A throttle that passes on the first event.
    pub fn new() -> (r: Throttle)
        ensures
            r.last_accepted_ms is None,
    {
        Throttle { last_accepted_ms: None }
    }

    /// Whether the event at `now_ms` is passed on; one that is becomes the last.
    pub fn accept(&mut self, now_ms: u64) -> (r: bool)
        ensures
            r == spaced(old(self).last_accepted_ms, now_ms),
            r ==> final(self).last_accepted_ms == Some(now_ms),
            !r ==> final(self).last_accepted_ms == old(self).last_accepted_ms,
    {
        let pass = match self.last_accepted_ms {
            None => true,
            Some(t) => now_ms >= t && now_ms - t >= MIN_EVENT_SPACING_MS,
        };
        if pass {
            self.last_accepted_ms = Some(now_ms);
        }
        pass
    }
}

} // verus!
