//! Components of the physical simulation.
//!
//! Positions are micrometres, velocities micrometres per second,
//! accelerations micrometres per second squared, masses kilograms.

use vstd::prelude::*;
use vstd::arithmetic::div_mod::{
    lemma_div_is_ordered, lemma_div_is_ordered_by_denominator, lemma_div_pos_is_pos,
    lemma_fundamental_div_mod,
};
use vstd::arithmetic::mul::lemma_mul_inequality;
use crate::math::{sqrt_floor, Vec3};
use crate::units::{
    mag, sgn, ACC_LIMIT, GRAV_DEN, GRAV_NUM, MASS_LIMIT, MIN_SEPARATION, POS_LIMIT, SCALE,
    SPEED_LIMIT, VEL_LIMIT,
};

verus! {

/// Position component.
#[derive(Copy, Clone, Debug, PartialEq, Eq, Structural)]
pub struct Position(pub Vec3);

/// Velocity component.
///
/// Requires a [`Position`] component to affect anything.
#[derive(Copy, Clone, Debug, PartialEq, Eq, Structural)]
pub struct Velocity(pub Vec3);

/// Acceleration component.
///
/// Requires a [`Velocity`] component to affect anything.
#[derive(Copy, Clone, Debug, PartialEq, Eq, Structural)]
pub struct Acceleration(pub Vec3);

/// Mass component, in kilograms.
///
/// Requires a [`Position`] component to affect others, and a [`Position`]
/// and an [`Acceleration`] component to be affected by others.
#[derive(Copy, Clone, Debug, PartialEq, Eq, Structural)]
pub struct Mass(pub u128);

/// Marker component for renderable bodies; carries no payload.
#[derive(Copy, Clone, Debug, Default, PartialEq, Eq, Structural)]
pub struct Planet;

/// Simulation speed resource, a micro-scaled multiplier applied to every
/// velocity and position update of a frame.
#[derive(Copy, Clone, Debug, PartialEq, Eq, Structural)]
pub struct SimSpeed(pub u64);

impl Default for SimSpeed {
    /// A speed factor of one thousand.
    fn default() -> (r: Self)
        ensures
            r.0 == 1_000_000_000u64,
    {
        SimSpeed(1_000_000_000)
    }
}

/// A position is storable when each coordinate fits the world's bounds.
pub open spec fn position_ok(p: Position) -> bool {
    &&& -POS_LIMIT <= p.0.x <= POS_LIMIT
    &&& -POS_LIMIT <= p.0.y <= POS_LIMIT
    &&& -POS_LIMIT <= p.0.z <= POS_LIMIT
}

/// A velocity is storable when each coordinate fits the world's bounds.
pub open spec fn velocity_ok(v: Velocity) -> bool {
    &&& -VEL_LIMIT <= v.0.x <= VEL_LIMIT
    &&& -VEL_LIMIT <= v.0.y <= VEL_LIMIT
    &&& -VEL_LIMIT <= v.0.z <= VEL_LIMIT
}

/// An acceleration is storable when each coordinate fits the world's bounds.
pub open spec fn acceleration_ok(a: Acceleration) -> bool {
    &&& -ACC_LIMIT <= a.0.x <= ACC_LIMIT
    &&& -ACC_LIMIT <= a.0.y <= ACC_LIMIT
    &&& -ACC_LIMIT <= a.0.z <= ACC_LIMIT
}

/// A mass is storable when positive and below the world's bound.
pub open spec fn mass_ok(m: Mass) -> bool {
    0 < m.0 <= MASS_LIMIT
}

/// A speed factor is storable when below the world's bound.
pub open spec fn speed_ok(s: SimSpeed) -> bool {
    s.0 <= SPEED_LIMIT
}

/// Largest magnitude one gravitating pair can contribute to an
/// acceleration component, given the mass bound and the separation floor.
pub const PAIR_LIMIT: i128 = 300_000_000_000_000_000_000_000_000;

/// A gravitating source: where it sits and how heavy it is (ghost view).
pub ghost struct SourceBody {
    pub x: int,
    pub y: int,
    pub z: int,
    pub m: int,
}

/// Componentwise sum of two acceleration triples.
pub open spec fn vadd3(a: (int, int, int), b: (int, int, int)) -> (int, int, int) {
    (a.0 + b.0, a.1 + b.1, a.2 + b.2)
}

/// The micro-scaled acceleration the source `b` induces at the point
/// `(px, py, pz)`: the inverse-square law `G·m/r²` along the unit vector
/// toward the source, evaluated in integer arithmetic.
///
/// A coincident pair contributes nothing, and any separation below
/// [`MIN_SEPARATION`] counts as exactly [`MIN_SEPARATION`]; both policies
/// keep the computation total and finite.
pub open spec fn pair_contrib(px: int, py: int, pz: int, b: SourceBody) -> (int, int, int) {
    let dx = b.x - px;
    let dy = b.y - py;
    let dz = b.z - pz;
    let r2 = dx * dx + dy * dy + dz * dz;
    if r2 == 0 {
        (0, 0, 0)
    } else {
        let rt = sqrt_floor(r2);
        let r = if rt < MIN_SEPARATION { MIN_SEPARATION as int } else { rt };
        let q = (GRAV_NUM * b.m) / (GRAV_DEN as int);
        let u = ((q * SCALE) * SCALE) * SCALE;
        let w = (u / r) / r;
        (
            sgn(dx) * ((w * mag(dx)) / r),
            sgn(dy) * ((w * mag(dy)) / r),
            sgn(dz) * ((w * mag(dz)) / r),
        )
    }
}

/// Difference of two bounded coordinates, split into sign and magnitude.
fn coord_diff(from: i64, to: i64) -> (r: (bool, u128))
    requires
        -POS_LIMIT <= from <= POS_LIMIT,
        -POS_LIMIT <= to <= POS_LIMIT,
    ensures
        r.1 == mag(to - from),
        r.0 == (to - from < 0),
        r.1 <= 2 * POS_LIMIT,
{
    let d: i128 = to as i128 - from as i128;
    if d < 0 {
        (true, (-d) as u128)
    } else {
        (false, d as u128)
    }
}

/// The square of a magnitude is the square of the number.
proof fn lemma_mag_sq(d: int)
    ensures
        mag(d) * mag(d) == d * d,
{
    if d < 0 {
        assert((-d) * (-d) == d * d) by (nonlinear_arith);
    }
}

/// Helper: `a <= s` whenever `a * a <= n` and `s` is the floor root of `n`.
proof fn lemma_le_sqrt(a: int, s: int, n: int)
    by (nonlinear_arith)
    requires
        a >= 0,
        a * a <= n,
        s >= 0,
        s * s <= n,
        (s + 1) * (s + 1) > n,
    ensures
        a <= s,
{
}

/// Compute `(w * a) / r` for one axis, with every intermediate bounded by
/// `u`, the scaled mass numerator.
fn mul_div_bounded(w: u128, a: u128, r: u128, Ghost(u): Ghost<int>) -> (c: u128)
    requires
        r >= 1,
        a <= r,
        w == ((u / r as int) / r as int),
        0 <= u <= 210_000_000_000_000_000_000_000_000_000_000_000_000,
    ensures
        c == (w * a) / r as int,
        0 <= c <= w,
{
    proof {
        lemma_div_pos_is_pos(u, r as int);
        lemma_div_pos_is_pos(u / r as int, r as int);
        assert(w * a <= w * r) by (nonlinear_arith)
            requires
                a <= r && w >= 0,
        ;
        assert((w as int) * (r as int) <= u / r as int) by {
            lemma_fundamental_div_mod(u / r as int, r as int);
            assert((u / r as int) % (r as int) >= 0);
            assert((r as int) * ((u / r as int) / r as int) == (w as int) * (r as int))
                by (nonlinear_arith)
                requires
                    w == ((u / r as int) / r as int),
            ;
        }
        assert(u / r as int <= u) by {
            lemma_div_is_ordered_by_denominator(u, 1, r as int);
        }
        lemma_div_is_ordered((w * a) as int, (w as int) * (r as int), r as int);
        assert((w as int) * (r as int) / (r as int) == w as int) by (nonlinear_arith)
            requires
                r >= 1,
        ;
        lemma_div_pos_is_pos((w * a) as int, r as int);
    }
    (w * a) / r
}

/// The per-axis magnitude is at most [`PAIR_LIMIT`]: two divisions by a
/// separation of at least [`MIN_SEPARATION`] shrink `u` far enough.
proof fn lemma_pair_component_bound(w: int, u: int, r: int)
    requires
        r >= MIN_SEPARATION,
        w == (u / r) / r,
        0 <= u <= 210_000_000_000_000_000_000_000_000_000_000_000_000,
    ensures
        0 <= w <= PAIR_LIMIT,
{
    lemma_div_pos_is_pos(u, r);
    lemma_div_pos_is_pos(u / r, r);
    lemma_div_is_ordered_by_denominator(u, MIN_SEPARATION as int, r);
    lemma_div_is_ordered(u / r, u / (MIN_SEPARATION as int), r);
    lemma_div_is_ordered_by_denominator(u / (MIN_SEPARATION as int), MIN_SEPARATION as int, r);
    assert(u / (MIN_SEPARATION as int) <= 210_000_000_000_000_000_000_000_000_000_000);
    assert((u / (MIN_SEPARATION as int)) / (MIN_SEPARATION as int)
        <= 210_000_000_000_000_000_000_000_000);
}

/// Folding the sign back in matches the spec's `sgn`/`mag` form.
proof fn lemma_sign_fold(d: int, w: int, r: int, c: int)
    requires
        r >= 1,
        w >= 0,
        c == (w * mag(d)) / r,
    ensures
        sgn(d) * ((w * mag(d)) / r) == (if d < 0 {
            -c
        } else {
            c
        }),
        c >= 0,
{
    assert(w * mag(d) >= 0) by (nonlinear_arith)
        requires
            w >= 0 && mag(d) >= 0,
    ;
    lemma_div_pos_is_pos(w * mag(d), r);
    if d == 0 {
        assert(w * mag(0) == 0) by (nonlinear_arith);
    }
}

/// The gravitational pull of a source of mass `m` at `bp` on the point `p`,
/// micro-scaled; executable counterpart of [`pair_contrib`].
pub fn pair_accel(p: Vec3, bp: Vec3, m: u128) -> (r: (i128, i128, i128))
    requires
        position_ok(Position(p)),
        position_ok(Position(bp)),
        0 < m <= MASS_LIMIT,
    ensures
        (r.0 as int, r.1 as int, r.2 as int) == pair_contrib(
            p.x as int,
            p.y as int,
            p.z as int,
            SourceBody { x: bp.x as int, y: bp.y as int, z: bp.z as int, m: m as int },
        ),
        -PAIR_LIMIT <= r.0 <= PAIR_LIMIT,
        -PAIR_LIMIT <= r.1 <= PAIR_LIMIT,
        -PAIR_LIMIT <= r.2 <= PAIR_LIMIT,
{
    let ghost b = SourceBody { x: bp.x as int, y: bp.y as int, z: bp.z as int, m: m as int };
    let ghost dx = b.x - p.x as int;
    let ghost dy = b.y - p.y as int;
    let ghost dz = b.z - p.z as int;
    let (nx, ax) = coord_diff(p.x, bp.x);
    let (ny, ay) = coord_diff(p.y, bp.y);
    let (nz, az) = coord_diff(p.z, bp.z);
    proof {
        lemma_mag_sq(dx);
        lemma_mag_sq(dy);
        lemma_mag_sq(dz);
        assert(ax * ax <= 100_000_000_000_000_000_000_000_000_000_000_000_000 && ay * ay
            <= 100_000_000_000_000_000_000_000_000_000_000_000_000 && az * az
            <= 100_000_000_000_000_000_000_000_000_000_000_000_000) by (nonlinear_arith)
            requires
                0 <= ax <= 10_000_000_000_000_000_000 && 0 <= ay <= 10_000_000_000_000_000_000
                    && 0 <= az <= 10_000_000_000_000_000_000,
        ;
    }
    let r2: u128 = ax * ax + ay * ay + az * az;
    assert(r2 == dx * dx + dy * dy + dz * dz);
    if r2 == 0 {
        return (0, 0, 0);
    }
    let root = crate::math::isqrt(r2);
    let rs: u128 = if root < MIN_SEPARATION {
        MIN_SEPARATION
    } else {
        root
    };
    assert(ax <= rs && ay <= rs && az <= rs) by {
        lemma_le_sqrt(ax as int, root as int, r2 as int);
        lemma_le_sqrt(ay as int, root as int, r2 as int);
        lemma_le_sqrt(az as int, root as int, r2 as int);
    }
    let q: u128 = (GRAV_NUM * m) / GRAV_DEN;
    assert(q <= 200_130_000_000_000_000_000) by {
        lemma_div_is_ordered(
            (GRAV_NUM * m) as int,
            2_001_300_000_000_000_000_000_000_000_000_000int,
            GRAV_DEN as int,
        );
    }
    let u: u128 = ((q * 1_000_000) * 1_000_000) * 1_000_000;
    let w: u128 = (u / rs) / rs;
    proof {
        lemma_div_pos_is_pos(u as int, rs as int);
        lemma_div_pos_is_pos((u as int) / (rs as int), rs as int);
        lemma_pair_component_bound(w as int, u as int, rs as int);
    }
    let cx = mul_div_bounded(w, ax, rs, Ghost(u as int));
    let cy = mul_div_bounded(w, ay, rs, Ghost(u as int));
    let cz = mul_div_bounded(w, az, rs, Ghost(u as int));
    proof {
        lemma_sign_fold(dx, w as int, rs as int, cx as int);
        lemma_sign_fold(dy, w as int, rs as int, cy as int);
        lemma_sign_fold(dz, w as int, rs as int, cz as int);
    }
    let rx: i128 = if nx {
        -(cx as i128)
    } else {
        cx as i128
    };
    let ry: i128 = if ny {
        -(cy as i128)
    } else {
        cy as i128
    };
    let rz: i128 = if nz {
        -(cz as i128)
    } else {
        cz as i128
    };
    (rx, ry, rz)
}

/// Whether slot `j` is a gravity source in `w`: live, massed, positioned.
pub open spec fn grav_source(w: crate::world::World, j: int) -> bool {
    &&& 0 <= j < w.slots()
    &&& w.alive@[j]
    &&& w.masses@[j] is Some
    &&& w.positions@[j] is Some
}

/// Whether gravity overwrites slot `i`'s acceleration: a source that also
/// carries an acceleration component.
pub open spec fn grav_target(w: crate::world::World, i: int) -> bool {
    grav_source(w, i) && w.accelerations@[i] is Some
}

/// The coordinates of slot `i`'s position (zero when absent).
pub open spec fn point_of(w: crate::world::World, i: int) -> (int, int, int) {
    match w.positions@[i] {
        Some(p) => (p.0.x as int, p.0.y as int, p.0.z as int),
        None => (0, 0, 0),
    }
}

/// The source body at slot `j` (zeroed when components are absent).
pub open spec fn source_at(w: crate::world::World, j: int) -> SourceBody {
    match (w.positions@[j], w.masses@[j]) {
        (Some(p), Some(m)) => SourceBody {
            x: p.0.x as int,
            y: p.0.y as int,
            z: p.0.z as int,
            m: m.0 as int,
        },
        _ => SourceBody { x: 0, y: 0, z: 0, m: 0 },
    }
}

/// Net micro-scaled acceleration on slot `i` from the sources among the
/// first `k` slots, skipping `i` itself, summed in slot order.
pub open spec fn accel_sum(w: crate::world::World, i: int, k: int) -> (int, int, int)
    decreases k,
{
    if k <= 0 {
        (0, 0, 0)
    } else {
        let rest = accel_sum(w, i, k - 1);
        if k - 1 != i && grav_source(w, k - 1) {
            let p = point_of(w, i);
            vadd3(rest, pair_contrib(p.0, p.1, p.2, source_at(w, k - 1)))
        } else {
            rest
        }
    }
}

/// The acceleration gravity writes into slot `i`: the pairwise sum over
/// every other source, each component clamped into the storable range.
pub open spec fn gravity_accel(w: crate::world::World, i: int) -> Vec3 {
    let s = accel_sum(w, i, w.slots());
    Vec3 {
        x: crate::units::clamp_mag(s.0, ACC_LIMIT as int) as i64,
        y: crate::units::clamp_mag(s.1, ACC_LIMIT as int) as i64,
        z: crate::units::clamp_mag(s.2, ACC_LIMIT as int) as i64,
    }
}

/// The first `upto` slots of `w` carry the accelerations gravity writes
/// over `base`; every later slot still holds what `base` held.
pub open spec fn accel_written(w: crate::world::World, base: crate::world::World, upto: int) -> bool {
    forall|t: int|
        0 <= t < base.slots() ==> #[trigger] w.accelerations@[t] == (
        if t < upto && grav_target(base, t) {
            Some(Acceleration(gravity_accel(base, t)))
        } else {
            base.accelerations@[t]
        })
}

/// System for gravity.
///
/// For every entity with mass, position and an acceleration slot, it
/// recomputes the net pull of every other massed, positioned entity from
/// scratch and overwrites the acceleration; nothing else changes.
pub struct Gravity;

impl Gravity {
    pub fn run(&self, w: &mut crate::world::World)
        requires
            old(w).wf(),
        ensures
            final(w).wf(),
            final(w).slots() == old(w).slots(),
            final(w).alive@ == old(w).alive@,
            final(w).positions@ == old(w).positions@,
            final(w).velocities@ == old(w).velocities@,
            final(w).masses@ == old(w).masses@,
            final(w).planets@ == old(w).planets@,
            final(w).same_but_tables(*old(w)),
            forall|i: int|
                0 <= i < old(w).slots() ==> #[trigger] final(w).accelerations@[i] == (
                if grav_target(*old(w), i) {
                    Some(Acceleration(gravity_accel(*old(w), i)))
                } else {
                    old(w).accelerations@[i]
                }),
    {
        let ghost orig = *w;
        let n = w.alive.len();
        let mut i: usize = 0;
        while i < n
            invariant
                w.wf(),
                orig.wf(),
                i <= n,
                n == orig.slots(),
                w.slots() == orig.slots(),
                w.alive@ == orig.alive@,
                w.positions@ == orig.positions@,
                w.velocities@ == orig.velocities@,
                w.masses@ == orig.masses@,
                w.planets@ == orig.planets@,
                w.same_but_tables(orig),
                accel_written(*w, orig, i as int),
            decreases n - i,
        {
            let has_all = w.alive[i] && w.masses[i].is_some() && w.positions[i].is_some()
                && w.accelerations[i].is_some();
            proof {
                assert(w.accelerations@[i as int] == orig.accelerations@[i as int]);
                assert(has_all == grav_target(orig, i as int));
            }
            if has_all {
                let pi: Vec3 = match w.positions[i] {
                    Some(p) => p.0,
                    None => Vec3 { x: 0, y: 0, z: 0 },
                };
                let mut sx: i128 = 0;
                let mut sy: i128 = 0;
                let mut sz: i128 = 0;
                let mut j: usize = 0;
                while j < n
                    invariant
                        w.wf(),
                        orig.wf(),
                        i < n,
                        j <= n,
                        n == orig.slots(),
                        w.slots() == orig.slots(),
                        w.alive@ == orig.alive@,
                        w.positions@ == orig.positions@,
                        w.masses@ == orig.masses@,
                        w.velocities@ == orig.velocities@,
                        w.planets@ == orig.planets@,
                        w.same_but_tables(orig),
                        accel_written(*w, orig, i as int),
                        grav_target(orig, i as int),
                        (pi.x as int, pi.y as int, pi.z as int) == point_of(orig, i as int),
                        position_ok(Position(pi)),
                        (sx as int, sy as int, sz as int) == accel_sum(
                            orig,
                            i as int,
                            j as int,
                        ),
                        -(j as int) * PAIR_LIMIT <= sx <= (j as int) * PAIR_LIMIT,
                        -(j as int) * PAIR_LIMIT <= sy <= (j as int) * PAIR_LIMIT,
                        -(j as int) * PAIR_LIMIT <= sz <= (j as int) * PAIR_LIMIT,
                    decreases n - j,
                {
                    if j != i && w.alive[j] && w.masses[j].is_some() && w.positions[j].is_some() {
                        let pj: Vec3 = match w.positions[j] {
                            Some(p) => p.0,
                            None => Vec3 { x: 0, y: 0, z: 0 },
                        };
                        let mj: u128 = match w.masses[j] {
                            Some(m) => m.0,
                            None => 1,
                        };
                        let (cx, cy, cz) = pair_accel(pi, pj, mj);
                        sx = sx + cx;
                        sy = sy + cy;
                        sz = sz + cz;
                    }
                    j = j + 1;
                }
                let af = Vec3 {
                    x: crate::units::clamp_i128(sx, ACC_LIMIT),
                    y: crate::units::clamp_i128(sy, ACC_LIMIT),
                    z: crate::units::clamp_i128(sz, ACC_LIMIT),
                };
                w.accelerations.set(i, Some(Acceleration(af)));
                assert(af == gravity_accel(orig, i as int));
            }
            proof {
                assert forall|t: int| 0 <= t < orig.slots() implies w.accelerations@[t] == (
                    if t < i as int + 1 && grav_target(orig, t) {
                        Some(Acceleration(gravity_accel(orig, t)))
                    } else {
                        orig.accelerations@[t]
                    }) by {
                    if t != i as int {
                        assert(w.accelerations@[t] == (if t < i as int && grav_target(orig, t) {
                            Some(Acceleration(gravity_accel(orig, t)))
                        } else {
                            orig.accelerations@[t]
                        }));
                    }
                }
                assert(accel_written(*w, orig, i as int + 1));
            }
            i = i + 1;
        }
    }
}

/// The velocity the integrator writes: the old velocity plus the
/// acceleration integrated over the frame, clamped into the storable range.
pub open spec fn new_velocity(v: Vec3, a: Vec3, dt: int, speed: int) -> Vec3 {
    Vec3 {
        x: crate::units::clamp_mag(v.x + crate::units::scaled_step(a.x as int, dt, speed), VEL_LIMIT as int) as i64,
        y: crate::units::clamp_mag(v.y + crate::units::scaled_step(a.y as int, dt, speed), VEL_LIMIT as int) as i64,
        z: crate::units::clamp_mag(v.z + crate::units::scaled_step(a.z as int, dt, speed), VEL_LIMIT as int) as i64,
    }
}

/// The position the integrator writes: the old position plus the *new*
/// velocity integrated over the frame (semi-implicit Euler), clamped.
pub open spec fn new_position(p: Vec3, v: Vec3, dt: int, speed: int) -> Vec3 {
    Vec3 {
        x: crate::units::clamp_mag(p.x + crate::units::scaled_step(v.x as int, dt, speed), POS_LIMIT as int) as i64,
        y: crate::units::clamp_mag(p.y + crate::units::scaled_step(v.y as int, dt, speed), POS_LIMIT as int) as i64,
        z: crate::units::clamp_mag(p.z + crate::units::scaled_step(v.z as int, dt, speed), POS_LIMIT as int) as i64,
    }
}

/// The integrator's first pass touches slot `i`: a live entity placed in
/// space, with a velocity to update and an acceleration to fold in. An
/// entity without a position is not integrated at all.
pub open spec fn integrates_velocity(w: crate::world::World, i: int) -> bool {
    &&& w.live(i)
    &&& w.positions@[i] is Some
    &&& w.velocities@[i] is Some
    &&& w.accelerations@[i] is Some
}

/// The integrator's second pass touches slot `i`: a live entity with both
/// position and velocity (acceleration stays optional).
pub open spec fn integrates_position(w: crate::world::World, i: int) -> bool {
    &&& w.live(i)
    &&& w.positions@[i] is Some
    &&& w.velocities@[i] is Some
}

/// The velocity entity `i` holds once the integrator's first pass is done:
/// folded forward where the pass touches the slot, untouched otherwise
/// (in particular where the acceleration or the position is absent).
pub open spec fn vel_after(w: crate::world::World, i: int) -> Vec3 {
    if integrates_velocity(w, i) {
        new_velocity(
            (w.velocities@[i]->0).0,
            (w.accelerations@[i]->0).0,
            w.delta.0 as int,
            w.sim_speed.0 as int,
        )
    } else if w.velocities@[i] is Some {
        (w.velocities@[i]->0).0
    } else {
        Vec3 { x: 0, y: 0, z: 0 }
    }
}

/// The first `upto` slots of `w` hold the velocities the integrator
/// writes over `base`; the rest still hold what `base` held.
pub open spec fn vels_written(w: crate::world::World, base: crate::world::World, upto: int) -> bool {
    forall|t: int|
        0 <= t < base.slots() ==> #[trigger] w.velocities@[t] == (
        if t < upto && integrates_velocity(base, t) {
            Some(Velocity(vel_after(base, t)))
        } else {
            base.velocities@[t]
        })
}

/// The first `upto` slots of `w` hold the positions the integrator writes
/// over `base`, each moved by the *new* velocity; the rest are untouched.
pub open spec fn poss_written(w: crate::world::World, base: crate::world::World, upto: int) -> bool {
    forall|t: int|
        0 <= t < base.slots() ==> #[trigger] w.positions@[t] == (
        if t < upto && integrates_position(base, t) {
            Some(
                Position(
                    new_position(
                        (base.positions@[t]->0).0,
                        vel_after(base, t),
                        base.delta.0 as int,
                        base.sim_speed.0 as int,
                    ),
                ),
            )
        } else {
            base.positions@[t]
        })
}

/// One axis of the integrator product, executable: `x · dt · speed`,
/// micro-scaled with staged floor divisions; matches [`integ_step`].
fn integ_step_exec(x: i64, dt: u64, speed: u64) -> (r: i128)
    requires
        dt <= crate::units::DELTA_LIMIT,
        speed <= SPEED_LIMIT,
    ensures
        r == crate::units::scaled_step(x as int, dt as int, speed as int),
        -100_000_000_000_000_000_000_000_000_000_000 <= r
            <= 100_000_000_000_000_000_000_000_000_000_000,
{
    let m: u128 = if x >= 0 {
        x as u128
    } else {
        (-(x as i128)) as u128
    };
    proof {
        assert(m * dt <= 10_000_000_000_000_000_000_000_000_000_000_000) by (nonlinear_arith)
            requires
                m <= 10_000_000_000_000_000_000 && dt <= crate::units::DELTA_LIMIT,
        ;
    }
    let t1: u128 = m * (dt as u128);
    let t2: u128 = t1 / 1_000_000;
    proof {
        assert(t2 * speed <= 100_000_000_000_000_000_000_000_000_000_000_000_000)
            by (nonlinear_arith)
            requires
                t2 <= 10_000_000_000_000_000_000_000_000_000 && speed <= SPEED_LIMIT,
        ;
    }
    let t3: u128 = t2 * (speed as u128);
    let t4: u128 = t3 / 1_000_000;
    proof {
        crate::units::lemma_sgn_mul(
            x as int,
            (((mag(x as int) * dt) / (SCALE as int)) * speed) / (SCALE as int),
        );
        if x == 0 {
            assert(0 * (dt as int) == 0) by (nonlinear_arith);
            vstd::arithmetic::div_mod::lemma_div_of0(SCALE as int);
            assert(0 * (speed as int) == 0) by (nonlinear_arith);
            assert(t4 == 0);
        }
    }
    if x >= 0 {
        t4 as i128
    } else {
        -(t4 as i128)
    }
}

/// System for basic mechanics: semi-implicit Euler integration over every
/// live entity that has at least velocity and position.
///
/// A first pass folds each such entity's acceleration, where present, into
/// its velocity; a second pass then moves the entity by its *new* velocity.
/// Updating the velocity strictly before using it for the position is what
/// makes the scheme semi-implicit rather than explicit Euler.
pub struct Mechanics;

impl Mechanics {
    pub fn run(&self, w: &mut crate::world::World)
        requires
            old(w).wf(),
        ensures
            final(w).wf(),
            final(w).slots() == old(w).slots(),
            final(w).alive@ == old(w).alive@,
            final(w).accelerations@ == old(w).accelerations@,
            final(w).masses@ == old(w).masses@,
            final(w).planets@ == old(w).planets@,
            final(w).same_but_tables(*old(w)),
            vels_written(*final(w), *old(w), old(w).slots()),
            poss_written(*final(w), *old(w), old(w).slots()),
    {
        let ghost orig = *w;
        let n = w.alive.len();
        let dt = w.delta.0;
        let speed = w.sim_speed.0;
        let mut i: usize = 0;
        while i < n
            invariant
                w.wf(),
                orig.wf(),
                i <= n,
                n == orig.slots(),
                w.slots() == orig.slots(),
                w.alive@ == orig.alive@,
                w.positions@ == orig.positions@,
                w.accelerations@ == orig.accelerations@,
                w.masses@ == orig.masses@,
                w.planets@ == orig.planets@,
                w.same_but_tables(orig),
                dt == orig.delta.0,
                speed == orig.sim_speed.0,
                vels_written(*w, orig, i as int),
            decreases n - i,
        {
            if w.alive[i] && w.positions[i].is_some() && w.velocities[i].is_some()
                && w.accelerations[i].is_some() {
                let v: Vec3 = match w.velocities[i] {
                    Some(v) => v.0,
                    None => Vec3 { x: 0, y: 0, z: 0 },
                };
                let a: Vec3 = match w.accelerations[i] {
                    Some(a) => a.0,
                    None => Vec3 { x: 0, y: 0, z: 0 },
                };
                let nv = Vec3 {
                    x: crate::units::clamp_i128(
                        v.x as i128 + integ_step_exec(a.x, dt, speed),
                        VEL_LIMIT,
                    ),
                    y: crate::units::clamp_i128(
                        v.y as i128 + integ_step_exec(a.y, dt, speed),
                        VEL_LIMIT,
                    ),
                    z: crate::units::clamp_i128(
                        v.z as i128 + integ_step_exec(a.z, dt, speed),
                        VEL_LIMIT,
                    ),
                };
                w.velocities.set(i, Some(Velocity(nv)));
                assert(nv == vel_after(orig, i as int));
            }
            proof {
                assert forall|t: int| 0 <= t < orig.slots() implies w.velocities@[t] == (
                    if t < i as int + 1 && integrates_velocity(orig, t) {
                        Some(Velocity(vel_after(orig, t)))
                    } else {
                        orig.velocities@[t]
                    }) by {
                    if t != i as int {
                        assert(w.velocities@[t] == (if t < i as int && integrates_velocity(
                            orig,
                            t,
                        ) {
                            Some(Velocity(vel_after(orig, t)))
                        } else {
                            orig.velocities@[t]
                        }));
                    }
                }
                assert(vels_written(*w, orig, i as int + 1));
            }
            i = i + 1;
        }
        let mut i: usize = 0;
        while i < n
            invariant
                w.wf(),
                orig.wf(),
                i <= n,
                n == orig.slots(),
                w.slots() == orig.slots(),
                w.alive@ == orig.alive@,
                w.accelerations@ == orig.accelerations@,
                w.masses@ == orig.masses@,
                w.planets@ == orig.planets@,
                w.same_but_tables(orig),
                dt == orig.delta.0,
                speed == orig.sim_speed.0,
                vels_written(*w, orig, orig.slots()),
                poss_written(*w, orig, i as int),
            decreases n - i,
        {
            if w.alive[i] && w.velocities[i].is_some() && w.positions[i].is_some() {
                let v: Vec3 = match w.velocities[i] {
                    Some(v) => v.0,
                    None => Vec3 { x: 0, y: 0, z: 0 },
                };
                let p: Vec3 = match w.positions[i] {
                    Some(p) => p.0,
                    None => Vec3 { x: 0, y: 0, z: 0 },
                };
                assert(v == vel_after(orig, i as int));
                let np = Vec3 {
                    x: crate::units::clamp_i128(
                        p.x as i128 + integ_step_exec(v.x, dt, speed),
                        POS_LIMIT,
                    ),
                    y: crate::units::clamp_i128(
                        p.y as i128 + integ_step_exec(v.y, dt, speed),
                        POS_LIMIT,
                    ),
                    z: crate::units::clamp_i128(
                        p.z as i128 + integ_step_exec(v.z, dt, speed),
                        POS_LIMIT,
                    ),
                };
                w.positions.set(i, Some(Position(np)));
                assert(np == new_position(
                    (orig.positions@[i as int]->0).0,
                    vel_after(orig, i as int),
                    dt as int,
                    speed as int,
                ));
            }
            proof {
                assert forall|t: int| 0 <= t < orig.slots() implies w.positions@[t] == (
                    if t < i as int + 1 && integrates_position(orig, t) {
                        Some(
                            Position(
                                new_position(
                                    (orig.positions@[t]->0).0,
                                    vel_after(orig, t),
                                    orig.delta.0 as int,
                                    orig.sim_speed.0 as int,
                                ),
                            ),
                        )
                    } else {
                        orig.positions@[t]
                    }) by {
                    if t != i as int {
                        assert(w.positions@[t] == (if t < i as int && integrates_position(
                            orig,
                            t,
                        ) {
                            Some(
                                Position(
                                    new_position(
                                        (orig.positions@[t]->0).0,
                                        vel_after(orig, t),
                                        orig.delta.0 as int,
                                        orig.sim_speed.0 as int,
                                    ),
                                ),
                            )
                        } else {
                            orig.positions@[t]
                        }));
                    }
                }
                assert(poss_written(*w, orig, i as int + 1));
            }
            i = i + 1;
        }
    }
}

/// Gravity reads only liveness, positions and masses: two worlds agreeing
/// on those hand every entity the same computed acceleration.
pub proof fn lemma_accel_sum_pure(w1: crate::world::World, w2: crate::world::World, i: int, k: int)
    requires
        w1.alive@ == w2.alive@,
        w1.positions@ == w2.positions@,
        w1.masses@ == w2.masses@,
    ensures
        accel_sum(w1, i, k) == accel_sum(w2, i, k),
    decreases k,
{
    if k > 0 {
        lemma_accel_sum_pure(w1, w2, i, k - 1);
    }
}

/// The acceleration gravity computes is a pure function of the current
/// positions and masses of the live entities.
pub proof fn lemma_gravity_pure(w1: crate::world::World, w2: crate::world::World, i: int)
    requires
        w1.alive@ == w2.alive@,
        w1.positions@ == w2.positions@,
        w1.masses@ == w2.masses@,
    ensures
        gravity_accel(w1, i) == gravity_accel(w2, i),
{
    lemma_accel_sum_pure(w1, w2, i, w1.slots());
}

/// Running gravity twice without an intervening integrator step writes the
/// same accelerations both times: the second pass recomputes exactly what
/// the first wrote, since positions and masses did not move.
pub proof fn lemma_gravity_idempotent(
    w0: crate::world::World,
    w1: crate::world::World,
    w2: crate::world::World,
)
    requires
        w1.alive@ == w0.alive@,
        w1.positions@ == w0.positions@,
        w1.masses@ == w0.masses@,
        w1.accelerations@.len() == w0.accelerations@.len(),
        w0.accelerations@.len() == w0.alive@.len(),
        accel_written(w1, w0, w0.slots()),
        w2.alive@ == w1.alive@,
        w2.positions@ == w1.positions@,
        w2.masses@ == w1.masses@,
        w2.accelerations@.len() == w1.accelerations@.len(),
        accel_written(w2, w1, w1.slots()),
    ensures
        w2.accelerations@ == w1.accelerations@,
{
    assert forall|i: int| 0 <= i < w1.accelerations@.len() implies w2.accelerations@[i]
        == w1.accelerations@[i] by {
        assert(grav_target(w1, i) == grav_target(w0, i));
        if grav_target(w1, i) {
            lemma_gravity_pure(w1, w0, i);
        }
    }
    assert(w2.accelerations@ =~= w1.accelerations@);
}

/// The spec-level fold operator summing source contributions at a point.
pub open spec fn add_contrib(px: int, py: int, pz: int) -> spec_fn(SourceBody, (int, int, int)) -> (
    int,
    int,
    int,
) {
    |b: SourceBody, acc: (int, int, int)| vadd3(acc, pair_contrib(px, py, pz, b))
}

/// The net pull of a list of sources at a point, summed in list order.
pub open spec fn pull_sum(px: int, py: int, pz: int, sources: Seq<SourceBody>) -> (int, int, int) {
    sources.fold_right(add_contrib(px, py, pz), (0, 0, 0))
}

/// Summing contributions commutes: pulling in one more body first or last
/// makes no difference.
pub proof fn lemma_add_contrib_commutes(px: int, py: int, pz: int)
    ensures
        vstd::seq_lib::commutative_foldr(add_contrib(px, py, pz)),
{
}

/// Summing the pairwise pulls is order-independent: any two arrangements
/// of the same bodies give the same net acceleration, exactly.
pub proof fn lemma_pull_sum_order_independent(
    px: int,
    py: int,
    pz: int,
    s1: Seq<SourceBody>,
    s2: Seq<SourceBody>,
)
    requires
        s1.to_multiset() == s2.to_multiset(),
    ensures
        pull_sum(px, py, pz, s1) == pull_sum(px, py, pz, s2),
{
    lemma_add_contrib_commutes(px, py, pz);
    vstd::seq_lib::lemma_fold_right_permutation(s1, s2, add_contrib(px, py, pz), (0, 0, 0));
}

/// The sources that contribute to slot `i` among the first `k` slots, in
/// slot order.
pub open spec fn sources_upto(w: crate::world::World, i: int, k: int) -> Seq<SourceBody>
    decreases k,
{
    if k <= 0 {
        Seq::empty()
    } else {
        let rest = sources_upto(w, i, k - 1);
        if k - 1 != i && grav_source(w, k - 1) {
            rest.push(source_at(w, k - 1))
        } else {
            rest
        }
    }
}

/// The gravity system's slot-order sum is the fold over its source list,
/// so the order-independence of [`pull_sum`] speaks about the system.
pub proof fn lemma_accel_sum_is_pull_sum(w: crate::world::World, i: int, k: int)
    ensures
        accel_sum(w, i, k) == pull_sum(
            point_of(w, i).0,
            point_of(w, i).1,
            point_of(w, i).2,
            sources_upto(w, i, k),
        ),
    decreases k,
{
    let p = point_of(w, i);
    let f = add_contrib(p.0, p.1, p.2);
    if k <= 0 {
    } else {
        lemma_accel_sum_is_pull_sum(w, i, k - 1);
        let rest = sources_upto(w, i, k - 1);
        if k - 1 != i && grav_source(w, k - 1) {
            let b = source_at(w, k - 1);
            lemma_add_contrib_commutes(p.0, p.1, p.2);
            assert(rest.push(b).drop_last() =~= rest);
            rest.lemma_fold_right_commute_one(b, f, (0, 0, 0));
        }
    }
}

/// Each component of a pair's pull carries the sign of the displacement
/// toward the source: gravity never pushes away, and a zero displacement
/// component contributes nothing on that axis.
pub proof fn lemma_pull_is_toward_source(px: int, py: int, pz: int, b: SourceBody)
    requires
        b.m >= 0,
    ensures
        (b.x - px == 0 ==> pair_contrib(px, py, pz, b).0 == 0),
        (b.x - px > 0 ==> pair_contrib(px, py, pz, b).0 >= 0),
        (b.x - px < 0 ==> pair_contrib(px, py, pz, b).0 <= 0),
        (b.y - py == 0 ==> pair_contrib(px, py, pz, b).1 == 0),
        (b.y - py > 0 ==> pair_contrib(px, py, pz, b).1 >= 0),
        (b.y - py < 0 ==> pair_contrib(px, py, pz, b).1 <= 0),
        (b.z - pz == 0 ==> pair_contrib(px, py, pz, b).2 == 0),
        (b.z - pz > 0 ==> pair_contrib(px, py, pz, b).2 >= 0),
        (b.z - pz < 0 ==> pair_contrib(px, py, pz, b).2 <= 0),
{
    let dx = b.x - px;
    let dy = b.y - py;
    let dz = b.z - pz;
    let r2 = dx * dx + dy * dy + dz * dz;
    if r2 != 0 {
        let rt = sqrt_floor(r2);
        let r = if rt < MIN_SEPARATION {
            MIN_SEPARATION as int
        } else {
            rt
        };
        let q = (GRAV_NUM * b.m) / (GRAV_DEN as int);
        let u = ((q * SCALE) * SCALE) * SCALE;
        let w = (u / r) / r;
        assert(r >= MIN_SEPARATION);
        lemma_div_pos_is_pos(GRAV_NUM * b.m, GRAV_DEN as int);
        assert(GRAV_NUM * b.m >= 0) by (nonlinear_arith)
            requires
                b.m >= 0,
        ;
        assert(u >= 0) by (nonlinear_arith)
            requires
                q >= 0 && SCALE >= 0 && u == ((q * SCALE) * SCALE) * SCALE,
        ;
        lemma_div_pos_is_pos(u, r);
        lemma_div_pos_is_pos(u / r, r);
        assert(w * mag(dx) >= 0 && w * mag(dy) >= 0 && w * mag(dz) >= 0) by (nonlinear_arith)
            requires
                w >= 0 && mag(dx) >= 0 && mag(dy) >= 0 && mag(dz) >= 0,
        ;
        lemma_div_pos_is_pos(w * mag(dx), r);
        lemma_div_pos_is_pos(w * mag(dy), r);
        lemma_div_pos_is_pos(w * mag(dz), r);
        crate::units::lemma_sgn_mul(dx, (w * mag(dx)) / r);
        crate::units::lemma_sgn_mul(dy, (w * mag(dy)) / r);
        crate::units::lemma_sgn_mul(dz, (w * mag(dz)) / r);
    }
}

/// The integrator is semi-implicit Euler: where no clamp bites, one step
/// moves each position coordinate by the *new* velocity integrated over
/// the frame — `p + (v + a·dt·s)·dt·s` — and not by the old one.
pub proof fn lemma_semi_implicit_step(p: Vec3, v: Vec3, a: Vec3, dt: int, speed: int)
    requires
        -VEL_LIMIT <= v.x + crate::units::scaled_step(a.x as int, dt, speed) <= VEL_LIMIT,
        -VEL_LIMIT <= v.y + crate::units::scaled_step(a.y as int, dt, speed) <= VEL_LIMIT,
        -VEL_LIMIT <= v.z + crate::units::scaled_step(a.z as int, dt, speed) <= VEL_LIMIT,
        -POS_LIMIT <= p.x + crate::units::scaled_step(
            v.x + crate::units::scaled_step(a.x as int, dt, speed),
            dt,
            speed,
        ) <= POS_LIMIT,
        -POS_LIMIT <= p.y + crate::units::scaled_step(
            v.y + crate::units::scaled_step(a.y as int, dt, speed),
            dt,
            speed,
        ) <= POS_LIMIT,
        -POS_LIMIT <= p.z + crate::units::scaled_step(
            v.z + crate::units::scaled_step(a.z as int, dt, speed),
            dt,
            speed,
        ) <= POS_LIMIT,
    ensures
        new_position(p, new_velocity(v, a, dt, speed), dt, speed).x == p.x
            + crate::units::scaled_step(
            v.x + crate::units::scaled_step(a.x as int, dt, speed),
            dt,
            speed,
        ),
        new_position(p, new_velocity(v, a, dt, speed), dt, speed).y == p.y
            + crate::units::scaled_step(
            v.y + crate::units::scaled_step(a.y as int, dt, speed),
            dt,
            speed,
        ),
        new_position(p, new_velocity(v, a, dt, speed), dt, speed).z == p.z
            + crate::units::scaled_step(
            v.z + crate::units::scaled_step(a.z as int, dt, speed),
            dt,
            speed,
        ),
{
}

} // verus!
