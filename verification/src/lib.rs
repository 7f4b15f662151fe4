//! A verified core for a real-time gravitational n-body simulation.
//!
//! The crate holds the simulation engine itself: a component store keyed by
//! entity identity, a shared-resource store, the per-frame systems (timer,
//! gravity, mechanics, camera control) and the dependency-ordered scheduler.
//! Window management, input devices and GPU drawing are boundary concerns and
//! live outside the library; they hand plain values in and read plain values
//! back out once per frame.
//!
//! All quantities are fixed-point integers in micro-units ([`units::SCALE`]
//! parts per whole): lengths in micrometres, durations in microseconds,
//! angles in microradians. Every formula of the engine is therefore an exact
//! integer function, stated in the contracts and proved.

use vstd::prelude::*;

pub mod units;
pub mod math;
pub mod error;
pub mod physics;
pub mod control;
pub mod camera;
pub mod timer;
pub mod world;
pub mod schedule;
pub mod planets;
pub mod frame;

verus! {

} // verus!
