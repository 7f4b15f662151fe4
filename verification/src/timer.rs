//! System and resource to track the time passed between frames.
//!
//! The frame loop reads the wall clock once per frame at the boundary and
//! hands the reading in as a plain microsecond timestamp; no clock lives
//! inside the core.

use vstd::prelude::*;
use crate::units::DELTA_LIMIT;

verus! {

/// Resource holding the time passed since the previous frame, microseconds.
///
/// Written once per frame by [`Timer`]; never negative, never above
/// [`DELTA_LIMIT`], and zero on the very first frame.
#[derive(Copy, Clone, Debug, PartialEq, Eq, Structural)]
pub struct Delta(pub u64);

impl Default for Delta {
    /// No time passed yet.
    fn default() -> (r: Self)
        ensures
            r.0 == 0,
    {
        Delta(0)
    }
}

/// What the timer publishes for a clock reading `now`, given the reading it
/// kept from the previous frame: the elapsed time, floored at zero should
/// the clock step backwards and capped at [`DELTA_LIMIT`] after a stall.
/// The first frame has no previous reading and reports zero.
pub open spec fn delta_of(last: Option<u64>, now: u64) -> int {
    match last {
        Option::None => 0,
        Option::Some(l) => {
            if now <= l {
                0
            } else if now - l > DELTA_LIMIT {
                DELTA_LIMIT as int
            } else {
                now - l
            }
        },
    }
}

/// System tracking time passed between frames; updates a [`Delta`].
#[derive(Copy, Clone, Debug, PartialEq, Eq, Structural)]
pub struct Timer {
    /// The clock reading taken on the previous frame, if any.
    pub last: Option<u64>,
}

impl Default for Timer {
    /// A timer that has not yet seen a frame.
    fn default() -> (r: Self)
        ensures
            r.last is None,
    {
        Timer { last: None }
    }
}

impl Timer {
    /// Publish the time elapsed since the previous invocation and remember
    /// the present reading.
    pub fn run(&mut self, now_us: u64, delta: &mut Delta)
        ensures
            final(delta).0 == delta_of(old(self).last, now_us),
            final(self).last == Some(now_us),
            final(delta).0 <= DELTA_LIMIT,
    {
        let elapsed: u64 = match self.last {
            None => 0,
            Some(l) => {
                if now_us <= l {
                    0
                } else if now_us - l > DELTA_LIMIT {
                    DELTA_LIMIT
                } else {
                    now_us - l
                }
            },
        };
        self.last = Some(now_us);
        delta.0 = elapsed;
    }
}

} // verus!
