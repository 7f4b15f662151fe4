//! The shared camera resource and the camera-control system's state.
//!
//! Angles are microradians. The pitch is clamped strictly inside ±π/2 so the
//! look direction can never become vertical; the yaw is kept normalized into
//! `[0, TAU_URAD)`, which changes nothing observable since it only ever
//! enters sine and cosine.

use vstd::prelude::*;
use vstd::arithmetic::div_mod::{lemma_div_is_ordered, lemma_div_is_ordered_by_denominator,
    lemma_div_of0, lemma_fundamental_div_mod, lemma_fundamental_div_mod_converse,
    lemma_div_pos_is_pos};
use crate::control::Controls;
use crate::math::Vec3;
use crate::physics::{position_ok, Position};
use crate::units::{
    clamp_mag, flag_diff, mag, scaled_step, sgn, ACCUM_LIMIT, DELTA_LIMIT, POS_LIMIT, SCALE,
    SPEED_LIMIT,
};

verus! {

/// One full turn in microradians.
pub const TAU_URAD: i64 = 6_283_185;

/// Half a turn in microradians.
pub const PI_URAD: i64 = 3_141_592;

/// A quarter turn in microradians.
pub const HALF_PI_URAD: i64 = 1_570_796;

/// The largest pitch the camera may take: a tenth of a milliradian short of
/// a quarter turn, keeping the view direction away from the vertical.
pub const PITCH_LIMIT: i64 = 1_570_696;

/// Camera resource: a position and two angles, read by the render boundary.
#[derive(Copy, Clone, Debug, PartialEq, Eq, Structural)]
pub struct Camera {
    pub position: Vec3,
    /// Rotation around the vertical axis, microradians, in `[0, TAU_URAD)`.
    pub yaw: i64,
    /// Elevation angle, microradians, in `[-PITCH_LIMIT, PITCH_LIMIT]`.
    pub pitch: i64,
}

impl Default for Camera {
    /// At the origin, looking level along the x axis.
    fn default() -> (r: Self)
        ensures
            r.position.x == 0 && r.position.y == 0 && r.position.z == 0,
            r.yaw == 0 && r.pitch == 0,
    {
        Camera { position: Vec3 { x: 0, y: 0, z: 0 }, yaw: 0, pitch: 0 }
    }
}

/// The camera's coordinates and angles stay inside their bounds.
pub open spec fn camera_ok(c: Camera) -> bool {
    &&& position_ok(Position(c.position))
    &&& 0 <= c.yaw < TAU_URAD
    &&& -PITCH_LIMIT <= c.pitch <= PITCH_LIMIT
}

/// The camera-control system: how fast the camera moves and how sharply it
/// turns, both micro-scaled.
#[derive(Copy, Clone, Debug, PartialEq, Eq, Structural)]
pub struct ControlCamera {
    pub speed: u64,
    pub sensitivity: u64,
}

impl Default for ControlCamera {
    /// A movement speed of ten units and a sensitivity of one.
    fn default() -> (r: Self)
        ensures
            r.speed == 10 * SCALE,
            r.sensitivity == SCALE,
    {
        ControlCamera { speed: 10_000_000, sensitivity: 1_000_000 }
    }
}

/// The camera system's tuning stays inside the same bound the speed
/// resource has.
pub open spec fn control_camera_ok(cc: ControlCamera) -> bool {
    cc.speed <= SPEED_LIMIT && cc.sensitivity <= SPEED_LIMIT
}

/// Five times the squared half-turn, the fixed base of the sine
/// approximation's denominator.
pub const FIVE_PI_SQ: i64 = 49_348_001_472_320;

/// Rational micro-scaled sine on `[0, PI_URAD]`: the classical
/// `16x(π−x) / (5π² − 4x(π−x))` approximation, capped at one.
pub open spec fn half_sine(x: int) -> int {
    let p = x * (PI_URAD - x);
    let v = (16 * p * (SCALE as int)) / (FIVE_PI_SQ - 4 * p);
    if v > SCALE {
        SCALE as int
    } else {
        v
    }
}

/// Micro-scaled sine of an angle in `[0, TAU_URAD)`.
pub open spec fn sine_of(a: int) -> int {
    if a <= PI_URAD {
        half_sine(a)
    } else {
        -half_sine(a - PI_URAD)
    }
}

/// Micro-scaled cosine of an angle in `[0, TAU_URAD)`: the sine a quarter
/// turn ahead.
pub open spec fn cosine_of(a: int) -> int {
    if a + HALF_PI_URAD < TAU_URAD {
        sine_of(a + HALF_PI_URAD)
    } else {
        sine_of(a + HALF_PI_URAD - TAU_URAD)
    }
}

/// Any angle brought into `[0, TAU_URAD)`.
pub open spec fn norm_angle(a: int) -> int {
    a % (TAU_URAD as int)
}

/// Micro-scaled product of two micro-scaled factors, sign restored.
pub open spec fn scaled_mul(a: int, b: int) -> int {
    sgn(a) * (sgn(b) * ((mag(a) * mag(b)) / (SCALE as int)))
}

/// What the zoom moves along one axis of the look direction `d`: the
/// accumulated scroll times speed, sensitivity and the frame delta, every
/// factor micro-scaled and each stage a floor division.
pub open spec fn zoom_step(d: int, scroll: int, speed: int, sens: int, dt: int) -> int {
    let m2 = (mag(d) * mag(scroll)) / (SCALE as int);
    let m4 = (m2 * speed) / (SCALE as int);
    let m6 = (m4 * sens) / (SCALE as int);
    let m8 = (m6 * dt) / (SCALE as int);
    sgn(d) * (sgn(scroll) * m8)
}

/// Executable [`half_sine`].
fn half_sine_exec(x: i64) -> (r: i64)
    requires
        0 <= x <= PI_URAD,
    ensures
        r == half_sine(x as int),
        0 <= r <= SCALE,
{
    proof {
        assert(x * (PI_URAD - x) <= 9_869_600_294_464) by (nonlinear_arith)
            requires
                0 <= x <= PI_URAD,
        ;
        assert(x * (PI_URAD - x) >= 0) by (nonlinear_arith)
            requires
                0 <= x <= PI_URAD,
        ;
    }
    let p: u128 = (x as u128) * ((PI_URAD - x) as u128);
    let num: u128 = 16 * p * 1_000_000;
    let den: u128 = (FIVE_PI_SQ as u128) - 4 * p;
    proof {
        lemma_div_pos_is_pos(num as int, den as int);
    }
    let v: u128 = num / den;
    let sv: u128 = if v > 1_000_000 {
        1_000_000
    } else {
        v
    };
    sv as i64
}

/// Executable [`sine_of`].
pub fn sine_urad(a: i64) -> (r: i64)
    requires
        0 <= a < TAU_URAD,
    ensures
        r == sine_of(a as int),
        -SCALE <= r <= SCALE,
{
    if a <= PI_URAD {
        half_sine_exec(a)
    } else {
        -half_sine_exec(a - PI_URAD)
    }
}

/// Executable [`cosine_of`].
pub fn cosine_urad(a: i64) -> (r: i64)
    requires
        0 <= a < TAU_URAD,
    ensures
        r == cosine_of(a as int),
        -SCALE <= r <= SCALE,
{
    if a + HALF_PI_URAD < TAU_URAD {
        sine_urad(a + HALF_PI_URAD)
    } else {
        sine_urad(a + HALF_PI_URAD - TAU_URAD)
    }
}

/// Executable [`norm_angle`] over a wide intermediate.
fn norm_angle_exec(a: i128) -> (r: i64)
    requires
        -100_000_000_000_000_000_000_000_000_000_000_000_000
            <= a <= 100_000_000_000_000_000_000_000_000_000_000_000_000,
    ensures
        r == norm_angle(a as int),
        0 <= r < TAU_URAD,
{
    let t: u128 = TAU_URAD as u128;
    if a >= 0 {
        let m = (a as u128) % t;
        m as i64
    } else {
        let m = ((-a) as u128) % t;
        proof {
            let ai = a as int;
            let ti = TAU_URAD as int;
            lemma_fundamental_div_mod(-ai, ti);
            let q = (-ai) / ti;
            if m == 0 {
                assert(ai == (-q) * ti + 0) by (nonlinear_arith)
                    requires
                        -ai == ti * q + 0,
                ;
                lemma_fundamental_div_mod_converse(ai, ti, -q, 0);
            } else {
                assert(ai == (-q - 1) * ti + (ti - m)) by (nonlinear_arith)
                    requires
                        -ai == ti * q + m,
                ;
                lemma_fundamental_div_mod_converse(ai, ti, -q - 1, ti - m as int);
            }
        }
        if m == 0 {
            0
        } else {
            (t - m) as i64
        }
    }
}

/// Executable [`scaled_step`] for the camera's bounds: the first factor is
/// an accumulator or a trig value, the second the speed or sensitivity,
/// the third the frame delta.
fn cam_step_exec(x: i64, b: u64, c: u64) -> (r: i128)
    requires
        -ACCUM_LIMIT <= x <= ACCUM_LIMIT,
        b <= SPEED_LIMIT,
        c <= DELTA_LIMIT,
    ensures
        r == scaled_step(x as int, b as int, c as int),
        -100_000_000_000_000_000_000_000_000_000_000 <= r
            <= 100_000_000_000_000_000_000_000_000_000_000,
{
    let m: u128 = if x >= 0 {
        x as u128
    } else {
        (-(x as i128)) as u128
    };
    proof {
        assert(m * b <= 10_000_000_000_000_000_000_000) by (nonlinear_arith)
            requires
                m <= ACCUM_LIMIT && b <= SPEED_LIMIT,
        ;
    }
    let t1: u128 = m * (b as u128);
    let t2: u128 = t1 / 1_000_000;
    proof {
        assert(t2 * c <= 10_000_000_000_000_000_000_000_000_000_000)
            by (nonlinear_arith)
            requires
                t2 <= 10_000_000_000_000_000 && c <= DELTA_LIMIT,
        ;
    }
    let t3: u128 = t2 * (c as u128);
    let t4: u128 = t3 / 1_000_000;
    proof {
        crate::units::lemma_sgn_mul(
            x as int,
            (((mag(x as int) * b) / (SCALE as int)) * c) / (SCALE as int),
        );
        if x == 0 {
            assert(0 * (b as int) == 0) by (nonlinear_arith);
            lemma_div_of0(SCALE as int);
            assert(0 * (c as int) == 0) by (nonlinear_arith);
            assert(t4 == 0);
        }
    }
    if x >= 0 {
        t4 as i128
    } else {
        -(t4 as i128)
    }
}

/// Executable [`scaled_mul`].
fn scaled_mul_exec(a: i64, b: i64) -> (r: i64)
    requires
        -SCALE <= a <= SCALE,
        -SCALE <= b <= SCALE,
    ensures
        r == scaled_mul(a as int, b as int),
        -SCALE <= r <= SCALE,
{
    proof {
        crate::units::lemma_sgn_mul(b as int, (mag(a as int) * mag(b as int)) / (SCALE as int));
        crate::units::lemma_sgn_mul(
            a as int,
            sgn(b as int) * ((mag(a as int) * mag(b as int)) / (SCALE as int)),
        );
    }
    if a == 0 || b == 0 {
        proof {
            if a == 0 {
                assert(0 * mag(b as int) == 0) by (nonlinear_arith);
            } else {
                assert(mag(a as int) * 0 == 0) by (nonlinear_arith);
            }
            lemma_div_of0(SCALE as int);
        }
        return 0;
    }
    let ma: u128 = if a >= 0 {
        a as u128
    } else {
        (-a) as u128
    };
    let mb: u128 = if b >= 0 {
        b as u128
    } else {
        (-b) as u128
    };
    proof {
        assert(ma * mb <= 1_000_000_000_000) by (nonlinear_arith)
            requires
                ma <= SCALE && mb <= SCALE,
        ;
    }
    let v: u128 = (ma * mb) / 1_000_000;
    if (a < 0) != (b < 0) {
        -(v as i64)
    } else {
        v as i64
    }
}

/// Executable [`zoom_step`].
fn zoom_step_exec(d: i64, scroll: i64, speed: u64, sens: u64, dt: u64) -> (r: i128)
    requires
        -SCALE <= d <= SCALE,
        -ACCUM_LIMIT <= scroll <= ACCUM_LIMIT,
        speed <= SPEED_LIMIT,
        sens <= SPEED_LIMIT,
        dt <= DELTA_LIMIT,
    ensures
        r == zoom_step(d as int, scroll as int, speed as int, sens as int, dt as int),
        -1_000_000_000_000_000_000_000_000_000_000 <= r <= 1_000_000_000_000_000_000_000_000_000_000,
{
    proof {
        crate::units::lemma_sgn_mul(
            scroll as int,
            ((((((mag(d as int) * mag(scroll as int)) / (SCALE as int)) * speed) / (
            SCALE as int)) * sens) / (SCALE as int) * dt) / (SCALE as int),
        );
        crate::units::lemma_sgn_mul(
            d as int,
            sgn(scroll as int) * (((((((mag(d as int) * mag(scroll as int)) / (SCALE as int))
                * speed) / (SCALE as int)) * sens) / (SCALE as int) * dt) / (SCALE as int)),
        );
    }
    if d == 0 || scroll == 0 {
        proof {
            if d == 0 {
                assert(0 * mag(scroll as int) == 0) by (nonlinear_arith);
            } else {
                assert(mag(d as int) * 0 == 0) by (nonlinear_arith);
            }
            lemma_div_of0(SCALE as int);
            assert(0 * (speed as int) == 0) by (nonlinear_arith);
            assert(0 * (sens as int) == 0) by (nonlinear_arith);
            assert(0 * (dt as int) == 0) by (nonlinear_arith);
        }
        return 0;
    }
    let md: u128 = if d >= 0 {
        d as u128
    } else {
        (-d) as u128
    };
    let ms: u128 = if scroll >= 0 {
        scroll as u128
    } else {
        (-scroll) as u128
    };
    proof {
        assert(md * ms <= 1_000_000_000_000_000_000) by (nonlinear_arith)
            requires
                md <= SCALE && ms <= ACCUM_LIMIT,
        ;
    }
    let m1: u128 = md * ms;
    let m2: u128 = m1 / 1_000_000;
    proof {
        assert(m2 * speed <= 10_000_000_000_000_000_000_000) by (nonlinear_arith)
            requires
                m2 <= 1_000_000_000_000 && speed <= SPEED_LIMIT,
        ;
    }
    let m3: u128 = m2 * (speed as u128);
    let m4: u128 = m3 / 1_000_000;
    proof {
        assert(m4 * sens <= 100_000_000_000_000_000_000_000_000) by (nonlinear_arith)
            requires
                m4 <= 10_000_000_000_000_000 && sens <= SPEED_LIMIT,
        ;
    }
    let m5: u128 = m4 * (sens as u128);
    let m6: u128 = m5 / 1_000_000;
    proof {
        assert(m6 * dt <= 100_000_000_000_000_000_000_000_000_000_000_000)
            by (nonlinear_arith)
            requires
                m6 <= 100_000_000_000_000_000_000 && dt <= DELTA_LIMIT,
        ;
    }
    let m7: u128 = m6 * (dt as u128);
    let m8: u128 = m7 / 1_000_000;
    if (d < 0) != (scroll < 0) {
        -(m8 as i128)
    } else {
        m8 as i128
    }
}

/// Executable [`flag_diff`].
fn flag(a: bool, b: bool) -> (r: i64)
    ensures
        r == flag_diff(a, b),
        -1 <= r <= 1,
{
    (if a {
        1i64
    } else {
        0i64
    }) - (if b {
        1i64
    } else {
        0i64
    })
}

/// Multiply a wide step by a unit flag.
fn mul_flag(f: i64, v: i128) -> (r: i128)
    requires
        -1 <= f <= 1,
        -1_000_000_000_000_000_000_000_000_000_000_000 <= v
            <= 1_000_000_000_000_000_000_000_000_000_000_000,
    ensures
        r == f * v,
{
    proof {
        crate::units::lemma_unit_mul(f as int, v as int);
    }
    if f == 1 {
        v
    } else if f == -1 {
        -v
    } else {
        0
    }
}

/// The look direction's micro-scaled components, derived from yaw and
/// On the middle of the half-turn the rational sine stays clearly
/// positive: at least a tenth of a milliradian in from either end, its
/// value never drops below 101 micro-units.
proof fn lemma_half_sine_mid_positive(x: int)
    requires
        100 <= x <= PI_URAD - 100,
    ensures
        half_sine(x) >= 101,
        sine_of(x) >= 101,
{
    let p = x * (PI_URAD - x);
    assert(p >= 314_149_200) by (nonlinear_arith)
        requires
            100 <= x <= PI_URAD - 100 && p == x * (PI_URAD - x) && PI_URAD == 3_141_592,
    ;
    assert(p <= 9_869_600_294_464) by (nonlinear_arith)
        requires
            0 <= x <= PI_URAD && p == x * (PI_URAD - x) && PI_URAD == 3_141_592,
    ;
    let num = 16 * p * (SCALE as int);
    let den = FIVE_PI_SQ - 4 * p;
    lemma_div_is_ordered_by_denominator(num, den, FIVE_PI_SQ as int);
    lemma_div_is_ordered(5_026_387_200_000_000, num, FIVE_PI_SQ as int);
    assert(5_026_387_200_000_000int / (FIVE_PI_SQ as int) == 101);
}

/// The pitch clamp keeps the look direction away from the vertical: the
/// fixed-point cosine of any clamped pitch is at least 101 micro-units,
/// so the horizontal part of the look direction never vanishes with it.
pub proof fn lemma_clamped_pitch_cosine_positive(p: int)
    requires
        -PITCH_LIMIT <= p <= PITCH_LIMIT,
    ensures
        cosine_of(norm_angle(p)) >= 101,
{
    let t = TAU_URAD as int;
    if p >= 0 {
        lemma_fundamental_div_mod_converse(p, t, 0, p);
        assert(norm_angle(p) == p);
    } else {
        lemma_fundamental_div_mod_converse(p, t, -1, p + t);
        assert(norm_angle(p) == p + t);
    }
    lemma_half_sine_mid_positive(p + HALF_PI_URAD);
}

/// pitch: forward along x at zero angles.
pub open spec fn direction_of(cam: Camera) -> Vec3 {
    let ys = sine_of(cam.yaw as int);
    let yc = cosine_of(cam.yaw as int);
    let sp = sine_of(norm_angle(cam.pitch as int));
    let cp = cosine_of(norm_angle(cam.pitch as int));
    Vec3 {
        x: scaled_mul(cp, yc) as i64,
        y: sp as i64,
        z: scaled_mul(cp, ys) as i64,
    }
}

impl Camera {
    /// The direction the camera looks along, micro-scaled components.
    ///
    /// Under the pitch clamp the direction never becomes vertical: the
    /// cosine scaling the horizontal components stays at or above 101
    /// micro-units ([`lemma_clamped_pitch_cosine_positive`]).
    pub fn direction(&self) -> (r: Vec3)
        requires
            camera_ok(*self),
        ensures
            r == direction_of(*self),
            -SCALE <= r.x <= SCALE,
            -SCALE <= r.y <= SCALE,
            -SCALE <= r.z <= SCALE,
            cosine_of(norm_angle(self.pitch as int)) >= 101,
    {
        proof {
            lemma_clamped_pitch_cosine_positive(self.pitch as int);
        }
        let ys = sine_urad(self.yaw);
        let yc = cosine_urad(self.yaw);
        let pn = norm_angle_exec(self.pitch as i128);
        let sp = sine_urad(pn);
        let cp = cosine_urad(pn);
        Vec3 { x: scaled_mul_exec(cp, yc), y: sp, z: scaled_mul_exec(cp, ys) }
    }
}

/// The camera state one camera-control pass produces from the old camera,
/// the input state and the frame delta: movement along the yaw basis,
/// zoom along the full look direction, direct vertical motion, then
/// rotation with the pitch clamped and the yaw normalized.
pub open spec fn camera_step(cc: ControlCamera, cam: Camera, ct: Controls, dt: int) -> Camera {
    let ys = sine_of(cam.yaw as int);
    let yc = cosine_of(cam.yaw as int);
    let sp = sine_of(norm_angle(cam.pitch as int));
    let cp = cosine_of(norm_angle(cam.pitch as int));
    let speed = cc.speed as int;
    let sens = cc.sensitivity as int;
    let fwd = flag_diff(ct.is_forward_pressed, ct.is_backward_pressed);
    let rgt = flag_diff(ct.is_right_pressed, ct.is_left_pressed);
    let upw = flag_diff(ct.is_up_pressed, ct.is_down_pressed);
    let dir_x = scaled_mul(cp, yc);
    let dir_z = scaled_mul(cp, ys);
    let px = cam.position.x + fwd * scaled_step(yc, speed, dt) + rgt * scaled_step(
        -ys,
        speed,
        dt,
    ) + zoom_step(dir_x, ct.mouse_scroll as int, speed, sens, dt);
    let py = cam.position.y + upw * ((speed * dt) / (SCALE as int)) + zoom_step(
        sp,
        ct.mouse_scroll as int,
        speed,
        sens,
        dt,
    );
    let pz = cam.position.z + fwd * scaled_step(ys, speed, dt) + rgt * scaled_step(
        yc,
        speed,
        dt,
    ) + zoom_step(dir_z, ct.mouse_scroll as int, speed, sens, dt);
    let yaw2 = norm_angle(cam.yaw + scaled_step(ct.mouse_dx as int, sens, dt));
    let pitch2 = clamp_mag(
        cam.pitch + scaled_step(-(ct.mouse_dy as int), sens, dt),
        PITCH_LIMIT as int,
    );
    Camera {
        position: Vec3 {
            x: clamp_mag(px, POS_LIMIT as int) as i64,
            y: clamp_mag(py, POS_LIMIT as int) as i64,
            z: clamp_mag(pz, POS_LIMIT as int) as i64,
        },
        yaw: yaw2 as i64,
        pitch: pitch2 as i64,
    }
}

/// The input state with its drain-once accumulators emptied.
pub open spec fn drained(ct: Controls) -> Controls {
    Controls { mouse_dx: 0, mouse_dy: 0, mouse_scroll: 0, ..ct }
}

impl ControlCamera {
    /// Run one camera-control pass: read the input state and the frame
    /// delta, move and rotate the shared camera, and drain the mouse and
    /// scroll accumulators to zero — even when no new input arrived.
    ///
    /// The new pitch always lies in `[-PITCH_LIMIT, PITCH_LIMIT]`, strictly
    /// inside the vertical, whatever the accumulated mouse input was.
    pub fn run(&self, w: &mut crate::world::World)
        requires
            old(w).wf(),
            control_camera_ok(*self),
        ensures
            final(w).wf(),
            final(w).camera == camera_step(*self, old(w).camera, old(w).controls, old(w).delta.0 as int),
            final(w).controls == drained(old(w).controls),
            -PITCH_LIMIT <= final(w).camera.pitch <= PITCH_LIMIT,
            final(w).controls.mouse_dx == 0,
            final(w).controls.mouse_dy == 0,
            final(w).controls.mouse_scroll == 0,
            final(w).alive@ == old(w).alive@,
            final(w).positions@ == old(w).positions@,
            final(w).velocities@ == old(w).velocities@,
            final(w).accelerations@ == old(w).accelerations@,
            final(w).masses@ == old(w).masses@,
            final(w).planets@ == old(w).planets@,
            final(w).pending_removals@ == old(w).pending_removals@,
            final(w).delta == old(w).delta,
            final(w).sim_speed == old(w).sim_speed,
    {
        let cam = w.camera;
        let ct = w.controls;
        let dt = w.delta.0;
        let speed = self.speed;
        let sens = self.sensitivity;
        let ys = sine_urad(cam.yaw);
        let yc = cosine_urad(cam.yaw);
        let pn = norm_angle_exec(cam.pitch as i128);
        let sp = sine_urad(pn);
        let cp = cosine_urad(pn);
        let fwd = flag(ct.is_forward_pressed, ct.is_backward_pressed);
        let rgt = flag(ct.is_right_pressed, ct.is_left_pressed);
        let upw = flag(ct.is_up_pressed, ct.is_down_pressed);
        let dir_x = scaled_mul_exec(cp, yc);
        let dir_z = scaled_mul_exec(cp, ys);
        let step_c = cam_step_exec(yc, speed, dt);
        let step_s = cam_step_exec(ys, speed, dt);
        let step_ns = cam_step_exec(-ys, speed, dt);
        let zx = zoom_step_exec(dir_x, ct.mouse_scroll, speed, sens, dt);
        let zy = zoom_step_exec(sp, ct.mouse_scroll, speed, sens, dt);
        let zz = zoom_step_exec(dir_z, ct.mouse_scroll, speed, sens, dt);
        proof {
            assert(speed * dt <= 10_000_000_000_000_000_000_000_000) by (nonlinear_arith)
                requires
                    speed <= SPEED_LIMIT && dt <= DELTA_LIMIT,
            ;
            crate::units::lemma_unit_mul(
                flag_diff(ct.is_up_pressed, ct.is_down_pressed),
                (speed * dt) / (SCALE as int),
            );
        }
        let vt: u128 = ((speed as u128) * (dt as u128)) / 1_000_000;
        let vy: i128 = if upw == 1 {
            vt as i128
        } else if upw == -1 {
            -(vt as i128)
        } else {
            0
        };
        let px: i128 = cam.position.x as i128 + mul_flag(fwd, step_c) + mul_flag(rgt, step_ns)
            + zx;
        let py: i128 = cam.position.y as i128 + vy + zy;
        let pz: i128 = cam.position.z as i128 + mul_flag(fwd, step_s) + mul_flag(rgt, step_c)
            + zz;
        let npos = Vec3 {
            x: crate::units::clamp_i128(px, POS_LIMIT),
            y: crate::units::clamp_i128(py, POS_LIMIT),
            z: crate::units::clamp_i128(pz, POS_LIMIT),
        };
        let rot = cam_step_exec(ct.mouse_dx, sens, dt);
        let yaw2 = norm_angle_exec(cam.yaw as i128 + rot);
        let prot = cam_step_exec(-ct.mouse_dy, sens, dt);
        let pitch2 = crate::units::clamp_i128(cam.pitch as i128 + prot, PITCH_LIMIT);
        w.camera = Camera { position: npos, yaw: yaw2, pitch: pitch2 };
        w.controls.mouse_dx = 0;
        w.controls.mouse_dy = 0;
        w.controls.mouse_scroll = 0;
    }
}

} // verus!
