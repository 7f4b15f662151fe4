//! The shared input-state resource, fed by the input boundary and drained
//! once per frame by the camera-control system.

use vstd::prelude::*;
use crate::units::{clamp_mag, mag, sgn, ACCUM_LIMIT};

verus! {

/// A key the camera controls react to. The input boundary translates the
/// window library's key codes into this; anything unmapped is `Other`.
#[derive(Copy, Clone, Debug, PartialEq, Eq, Structural)]
pub enum Key {
    Space,
    LeftShift,
    W,
    A,
    S,
    D,
    UpArrow,
    DownArrow,
    LeftArrow,
    RightArrow,
    Other,
}

/// A scroll-wheel step, either in lines or in micro-scaled pixels.
#[derive(Copy, Clone, Debug, PartialEq, Eq, Structural)]
pub enum ScrollDelta {
    /// Whole-line scrolling, in micro-scaled lines.
    Lines(i64),
    /// Pixel scrolling, in micro-scaled pixels.
    Pixels(i64),
}

/// Boolean movement flags plus accumulated mouse and scroll deltas.
///
/// The accumulators are filled by the input boundary between frames and
/// drained to zero by the camera-control system each frame.
#[derive(Copy, Clone, Debug, PartialEq, Eq, Structural)]
pub struct Controls {
    pub is_up_pressed: bool,
    pub is_down_pressed: bool,
    pub is_forward_pressed: bool,
    pub is_backward_pressed: bool,
    pub is_left_pressed: bool,
    pub is_right_pressed: bool,
    pub mouse_dx: i64,
    pub mouse_dy: i64,
    pub mouse_scroll: i64,
}

impl Default for Controls {
    /// No key held and every accumulator empty.
    fn default() -> (r: Self)
        ensures
            r == Controls::initial(),
    {
        Controls {
            is_up_pressed: false,
            is_down_pressed: false,
            is_forward_pressed: false,
            is_backward_pressed: false,
            is_left_pressed: false,
            is_right_pressed: false,
            mouse_dx: 0,
            mouse_dy: 0,
            mouse_scroll: 0,
        }
    }
}

/// The accumulators stay inside `[-ACCUM_LIMIT, ACCUM_LIMIT]`.
pub open spec fn controls_ok(c: Controls) -> bool {
    &&& -ACCUM_LIMIT <= c.mouse_dx <= ACCUM_LIMIT
    &&& -ACCUM_LIMIT <= c.mouse_dy <= ACCUM_LIMIT
    &&& -ACCUM_LIMIT <= c.mouse_scroll <= ACCUM_LIMIT
}

/// What a wheel step adds to the scroll accumulator: lines count half a
/// unit each and scrolling up moves the camera in, so the sign flips.
pub open spec fn wheel_amount(delta: ScrollDelta) -> int {
    match delta {
        ScrollDelta::Lines(l) => -(sgn(l as int) * (mag(l as int) / 2)),
        ScrollDelta::Pixels(p) => -(p as int),
    }
}

impl Controls {
    /// The default state as a spec value.
    pub open spec fn initial() -> Controls {
        Controls {
            is_up_pressed: false,
            is_down_pressed: false,
            is_forward_pressed: false,
            is_backward_pressed: false,
            is_left_pressed: false,
            is_right_pressed: false,
            mouse_dx: 0,
            mouse_dy: 0,
            mouse_scroll: 0,
        }
    }

    /// Accumulate a relative mouse motion into the drain-once accumulators.
    pub fn process_mouse(&mut self, dx: i64, dy: i64)
        ensures
            final(self).mouse_dx == clamp_mag(old(self).mouse_dx + dx, ACCUM_LIMIT as int),
            final(self).mouse_dy == clamp_mag(old(self).mouse_dy + dy, ACCUM_LIMIT as int),
            *final(self) == (Controls {
                mouse_dx: final(self).mouse_dx,
                mouse_dy: final(self).mouse_dy,
                ..*old(self)
            }),
    {
        self.mouse_dx = crate::units::clamp_i128(self.mouse_dx as i128 + dx as i128, ACCUM_LIMIT);
        self.mouse_dy = crate::units::clamp_i128(self.mouse_dy as i128 + dy as i128, ACCUM_LIMIT);
    }

    /// Accumulate a scroll-wheel step.
    pub fn process_wheel(&mut self, delta: ScrollDelta)
        ensures
            final(self).mouse_scroll == clamp_mag(
                old(self).mouse_scroll + wheel_amount(delta),
                ACCUM_LIMIT as int,
            ),
            *final(self) == (Controls { mouse_scroll: final(self).mouse_scroll, ..*old(self) }),
    {
        let amount: i128 = match delta {
            ScrollDelta::Lines(l) => {
                if l >= 0 {
                    let half = (l as u128) / 2;
                    -(half as i128)
                } else {
                    let m = (-(l as i128)) as u128;
                    (m / 2) as i128
                }
            },
            ScrollDelta::Pixels(p) => -(p as i128),
        };
        self.mouse_scroll = crate::units::clamp_i128(self.mouse_scroll as i128 + amount, ACCUM_LIMIT);
    }

    /// Update the movement flag a key stands for; reports whether the key
    /// is one the controls know.
    pub fn process_keyboard(&mut self, key: Key, pressed: bool) -> (handled: bool)
        ensures
            handled == (key != Key::Other),
            *final(self) == (match key {
                Key::Space => Controls { is_up_pressed: pressed, ..*old(self) },
                Key::LeftShift => Controls { is_down_pressed: pressed, ..*old(self) },
                Key::W | Key::UpArrow => Controls { is_forward_pressed: pressed, ..*old(self) },
                Key::A | Key::LeftArrow => Controls { is_left_pressed: pressed, ..*old(self) },
                Key::S | Key::DownArrow => Controls { is_backward_pressed: pressed, ..*old(self) },
                Key::D | Key::RightArrow => Controls { is_right_pressed: pressed, ..*old(self) },
                Key::Other => *old(self),
            }),
    {
        match key {
            Key::Space => {
                self.is_up_pressed = pressed;
                true
            },
            Key::LeftShift => {
                self.is_down_pressed = pressed;
                true
            },
            Key::W | Key::UpArrow => {
                self.is_forward_pressed = pressed;
                true
            },
            Key::A | Key::LeftArrow => {
                self.is_left_pressed = pressed;
                true
            },
            Key::S | Key::DownArrow => {
                self.is_backward_pressed = pressed;
                true
            },
            Key::D | Key::RightArrow => {
                self.is_right_pressed = pressed;
                true
            },
            Key::Other => false,
        }
    }
}

} // verus!
