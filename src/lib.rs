//! Tracking the time spent on tasks: clock-style and worded durations,
//! timers and tasks, and the records, store and screens of a small terminal
//! time tracker.
use vstd::prelude::*;

pub mod text;
pub mod clock;
pub mod timing;
pub mod model;
pub mod store;
pub mod pages;
pub mod navigator;
pub mod hours;
pub mod timestamp;
pub mod session;
pub mod input;

pub use clock::get_clock_format;
pub use timing::{Moment, Task, Timer};

verus! {

} // verus!
