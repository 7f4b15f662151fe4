//! Fixed-point scale, physical limits and small sign/clamp helpers.
//!
//! The whole engine works in micro-units: a value of [`SCALE`] stands for
//! one whole unit (one metre, one second, one radian, a speed factor of one).
//! The limits below bound every stored quantity so that each intermediate
//! product of the physics provably fits in 128-bit integers.

use vstd::prelude::*;

verus! {

/// Number of fixed-point steps per whole unit (micro resolution).
pub const SCALE: i64 = 1_000_000;

/// Numerator of the gravitational constant: G = GRAV_NUM / GRAV_DEN
/// = 6.67e-11 in metres, kilograms and seconds.
pub const GRAV_NUM: u128 = 667;

/// Denominator of the gravitational constant.
pub const GRAV_DEN: u128 = 10_000_000_000_000;

/// Largest magnitude a position coordinate may take (5e12 m in micrometres).
pub const POS_LIMIT: i64 = 5_000_000_000_000_000_000;

/// Largest magnitude a velocity coordinate may take (1e12 m/s in µm/s).
pub const VEL_LIMIT: i64 = 1_000_000_000_000_000_000;

/// Largest magnitude an acceleration coordinate may take (1e12 m/s² in µm/s²).
pub const ACC_LIMIT: i64 = 1_000_000_000_000_000_000;

/// Largest mass of a body in kilograms (a little above the sun's 1.989e30).
pub const MASS_LIMIT: u128 = 3_000_000_000_000_000_000_000_000_000_000;

/// Largest frame delta the integrator accepts (1e9 s in µs); the timer
/// clamps longer stalls down to it.
pub const DELTA_LIMIT: u64 = 1_000_000_000_000_000;

/// Largest simulation-speed multiplier (ten thousand in micro-units).
pub const SPEED_LIMIT: u64 = 10_000_000_000;

/// Minimum separation the gravity kernel works with (one metre in
/// micrometres): bodies closer than this are treated as exactly this far
/// apart, so a coincident or near-coincident pair never divides by zero
/// and never produces an unbounded pull.
pub const MIN_SEPARATION: u128 = 1_000_000;

/// Largest number of entity slots a world may hold.
pub const ENTITY_LIMIT: usize = 100_000;

/// Largest magnitude the input accumulators (mouse, scroll) may take.
pub const ACCUM_LIMIT: i64 = 1_000_000_000_000;

/// Sign of an integer: -1, 0 or 1.
pub open spec fn sgn(x: int) -> int {
    if x > 0 {
        1
    } else if x < 0 {
        -1
    } else {
        0
    }
}

/// Magnitude of an integer.
pub open spec fn mag(x: int) -> int {
    if x >= 0 {
        x
    } else {
        -x
    }
}

/// Clamp `x` into the closed interval `[-lim, lim]`.
pub open spec fn clamp_mag(x: int, lim: int) -> int {
    if x > lim {
        lim
    } else if x < -lim {
        -lim
    } else {
        x
    }
}

/// Multiplying by a sign selects the value, its negation, or zero.
pub proof fn lemma_sgn_mul(x: int, q: int)
    ensures
        sgn(x) * q == (if x > 0 {
            q
        } else if x < 0 {
            -q
        } else {
            0
        }),
{
    if x > 0 {
        assert(1 * q == q) by (nonlinear_arith);
    } else if x < 0 {
        assert((-1) * q == -q) by (nonlinear_arith);
    } else {
        assert(0 * q == 0) by (nonlinear_arith);
    }
}

/// The staged fixed-point product `x * b * c`: the magnitude of `x` is
/// multiplied by `b`, brought back to scale by a floor division, multiplied
/// by `c` and brought back to scale again, and the sign of `x` is restored.
/// The integrator and the camera controls both scale by it.
pub open spec fn scaled_step(x: int, b: int, c: int) -> int {
    sgn(x) * ((((mag(x) * b) / (SCALE as int)) * c) / (SCALE as int))
}

/// The difference of two opposing boolean flags: -1, 0 or 1, so holding
/// both keys cancels to no movement.
pub open spec fn flag_diff(a: bool, b: bool) -> int {
    (if a {
        1int
    } else {
        0int
    }) - (if b {
        1int
    } else {
        0int
    })
}

/// Multiplying by a unit factor (-1, 0 or 1) selects the value, its
/// negation, or zero.
pub proof fn lemma_unit_mul(f: int, q: int)
    requires
        -1 <= f <= 1,
    ensures
        f * q == (if f == 1 {
            q
        } else if f == -1 {
            -q
        } else {
            0
        }),
{
    if f == 1 {
        assert(1 * q == q) by (nonlinear_arith);
    } else if f == -1 {
        assert((-1) * q == -q) by (nonlinear_arith);
    } else {
        assert(0 * q == 0) by (nonlinear_arith);
    }
}

/// Clamp a 128-bit sum into an `i64` interval `[-lim, lim]`.
///
/// Executable counterpart of [`clamp_mag`] for the limits above, which all
/// lie inside the `i64` range.
pub fn clamp_i128(x: i128, lim: i64) -> (r: i64)
    requires
        0 <= lim,
    ensures
        r == clamp_mag(x as int, lim as int),
{
    if x > lim as i128 {
        lim
    } else if x < -(lim as i128) {
        -lim
    } else {
        x as i64
    }
}

} // verus!
