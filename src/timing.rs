//! Points in time, and the timers and tasks that measure the seconds between two of them.
use vstd::prelude::*;
use crate::clock::{clock_text, duration_as_words, duration_words, get_clock_format};

verus! {

/// Nanoseconds in a second.
pub const NANOS_PER_SECOND: u128 = 1_000_000_000;

#[verifier::external_type_specification]
#[verifier::external_body]
pub struct ExInstant(std::time::Instant);

/// Relies on std::time::Instant::now: a reading of the monotonic clock.
#[verifier::external_body]
fn instant_now() -> (r: std::time::Instant) {
    std::time::Instant::now()
}

/// Relies on std::time::Instant::elapsed: the time from `origin` to now on the
/// monotonic clock, in whole nanoseconds. Any value may come back.
#[verifier::external_body]
fn nanos_since(origin: &std::time::Instant) -> (r: u128) {
    origin.elapsed().as_nanos()
}

/// A point in time: signed nanoseconds from the origin instant of the timer
/// or task that holds it.
#[derive(Clone, Copy, Debug, PartialEq, Eq, Structural)]
pub struct Moment {
    pub nanos: i128,
}

/// Whole seconds from `start` to `end`; zero where `end` is not after `start`.
pub open spec fn whole_seconds(start: Moment, end: Moment) -> nat {
    if end.nanos >= start.nanos {
        ((end.nanos - start.nanos) / (NANOS_PER_SECOND as int)) as nat
    } else {
        0
    }
}

/// `whole_seconds`, held to what a `u64` can count.
pub open spec fn whole_seconds_u64(start: Moment, end: Moment) -> u64 {
    if whole_seconds(start, end) > u64::MAX {
        u64::MAX
    } else {
        whole_seconds(start, end) as u64
    }
}

/// The moment `nanos` after an origin, held to what a `Moment` can count.
fn moment_after(nanos: u128) -> (r: Moment)
    ensures
        r.nanos == if nanos > i128::MAX as u128 {
            i128::MAX as int
        } else {
            nanos as int
        },
        r.nanos >= 0,
{
    if nanos > i128::MAX as u128 {
        Moment { nanos: i128::MAX }
    } else {
        Moment { nanos: nanos as i128 }
    }
}

impl Moment {
    /// The origin itself.
    pub fn origin() -> (r: Moment)
        ensures
            r.nanos == 0,
    {
        Moment { nanos: 0 }
    }

    /// This moment moved `secs` seconds back, stopping at the least moment.
    pub fn earlier_by_secs(&self, secs: u64) -> (r: Moment)
        ensures
            r.nanos == if self.nanos - secs * NANOS_PER_SECOND >= i128::MIN {
                self.nanos - secs * NANOS_PER_SECOND
            } else {
                i128::MIN as int
            },
    {
        assert((secs as int) * 1_000_000_000 <= 0xffff_ffff_ffff_ffff * 1_000_000_000int)
            by (nonlinear_arith)
            requires
                secs <= 0xffff_ffff_ffff_ffffu64,
        ;
        let back = (secs as i128) * (NANOS_PER_SECOND as i128);
        if self.nanos >= i128::MIN + back {
            Moment { nanos: self.nanos - back }
        } else {
            Moment { nanos: i128::MIN }
        }
    }

    /// Whole seconds from `earlier` to this moment, zero where this moment is
    /// not after it, and at most `u64::MAX`.
    pub fn whole_seconds_since(&self, earlier: &Moment) -> (r: u64)
        ensures
            r == whole_seconds_u64(*earlier, *self),
            self.nanos <= earlier.nanos ==> r == 0,
    {
        if self.nanos >= earlier.nanos {
            let span: u128 = if earlier.nanos >= 0 || self.nanos < 0 {
                (self.nanos - earlier.nanos) as u128
            } else {
                self.nanos as u128 + (-(earlier.nanos + 1)) as u128 + 1
            };
            let secs = span / NANOS_PER_SECOND;
            if secs > u64::MAX as u128 {
                u64::MAX
            } else {
                secs as u64
            }
        } else {
            0
        }
    }
}

/// A timer that measures the time from its start to its last update.
#[derive(Clone, Copy)]
pub struct Timer {
    origin: std::time::Instant,
    start: Moment,
    end: Moment,
}

impl Timer {
    /// When the timer was started.
    pub closed spec fn start_moment(&self) -> Moment {
        self.start
    }

    /// When the timer was last updated.
    pub closed spec fn end_moment(&self) -> Moment {
        self.end
    }

    /// The whole seconds between the start and the last update.
    pub open spec fn seconds(&self) -> u64 {
        whole_seconds_u64(self.start_moment(), self.end_moment())
    }

    /// Creates a timer and starts it now; no time has passed on it yet.
    pub fn new() -> (r: Timer)
        ensures
            r.start_moment() == r.end_moment(),
            r.start_moment().nanos == 0,
            r.seconds() == 0,
    {
        Timer { origin: instant_now(), start: Moment::origin(), end: Moment::origin() }
    }

    /// Creates a timer from the moment it started and the moment it was last updated.
    pub fn between(start: Moment, end: Moment) -> (r: Timer)
        ensures
            r.start_moment() == start,
            r.end_moment() == end,
    {
        Timer { origin: instant_now(), start, end }
    }

    /// Sets the timer's end to `end`; its start stays.
    pub fn set_end(&mut self, end: Moment)
        ensures
            final(self).start_moment() == old(self).start_moment(),
            final(self).end_moment() == end,
    {
        self.end = end;
    }

    /// Sets the timer's end to now, a moment at or after its origin; its start stays.
    pub fn update(&mut self)
        ensures
            final(self).start_moment() == old(self).start_moment(),
            final(self).end_moment().nanos >= 0,
    {
        let now = moment_after(nanos_since(&self.origin));
        self.set_end(now);
    }

    /// The whole seconds from the start to the last update; zero where the
    /// update is not after the start.
    pub fn elapsed(&self) -> (r: u64)
        ensures
            r == self.seconds(),
            self.end_moment().nanos <= self.start_moment().nanos ==> r == 0,
    {
        self.end.whole_seconds_since(&self.start)
    }

    /// The elapsed time as `HH:MM:SS`.
    pub fn to_clock_string(&self) -> (r: String)
        ensures
            r@ == clock_text(self.seconds() as nat),
    {
        get_clock_format(self.elapsed())
    }
}

/// A named task that time is tracked for.
pub struct Task {
    /// The name of the task.
    pub name: String,
    /// The instant that the task's moments count from: when it was created.
    pub origin: std::time::Instant,
    /// When the task was started.
    pub start: Moment,
    /// When the task was stopped, or created where it was never stopped.
    pub end: Moment,
}

impl Task {
    /// The whole seconds tracked for the task.
    pub open spec fn seconds(&self) -> u64 {
        whole_seconds_u64(self.start, self.end)
    }

    /// Creates a task with the given name, started now; no time is tracked on it yet.
    pub fn new(name: &String) -> (r: Task)
        ensures
            r.name@ == name@,
            r.start == r.end,
            r.start.nanos == 0,
            r.seconds() == 0,
    {
        Task {
            name: name.clone(),
            origin: instant_now(),
            start: Moment::origin(),
            end: Moment::origin(),
        }
    }

    /// Sets the task's end to `end`; its name and start stay.
    pub fn stop_at(&mut self, end: Moment)
        ensures
            final(self).name == old(self).name,
            final(self).start == old(self).start,
            final(self).end == end,
    {
        self.end = end;
    }

    /// Stops the task now, a moment at or after its origin; its name and start stay.
    pub fn stop(&mut self)
        ensures
            final(self).name == old(self).name,
            final(self).start == old(self).start,
            final(self).end.nanos >= 0,
    {
        let now = moment_after(nanos_since(&self.origin));
        self.stop_at(now);
    }

    /// The whole seconds from the start of the task to its stop; zero where
    /// the stop is not after the start.
    pub fn time_tracked_seconds(&self) -> (r: u64)
        ensures
            r == self.seconds(),
            self.end.nanos <= self.start.nanos ==> r == 0,
    {
        self.end.whole_seconds_since(&self.start)
    }
    /// The time tracked in words, such as `1 Minute and 2 Seconds`; units
    /// that are zero are left out.
    pub fn time_tracked_string(&self) -> (r: String)
        ensures
            r@ == duration_words(self.seconds() as nat),
    {
        duration_as_words(self.time_tracked_seconds())
    }

    /// The time tracked as `HH:MM:SS`.
    pub fn to_clock_string(&self) -> (r: String)
        ensures
            r@ == clock_text(self.seconds() as nat),
    {
        get_clock_format(self.time_tracked_seconds())
    }
}

} // verus!
