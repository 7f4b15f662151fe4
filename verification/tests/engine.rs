use solar_sim::camera::{Camera, ControlCamera, PITCH_LIMIT, TAU_URAD};
use solar_sim::control::{Controls, Key, ScrollDelta};
use solar_sim::error::CustomError;
use solar_sim::frame::{core_declarations, run_frame};
use solar_sim::math::{isqrt, Vec3};
use solar_sim::physics::{Acceleration, Gravity, Mass, Mechanics, Position, SimSpeed, Velocity};
use solar_sim::planets::build_planets;
use solar_sim::schedule::{schedule, ResourceId, SystemDecl};
use solar_sim::timer::{Delta, Timer};
use solar_sim::units::DELTA_LIMIT;
use solar_sim::world::{EntityId, World};

fn body(w: &mut World, pos: [i64; 3], vel: [i64; 3], mass: u128) -> EntityId {
    let e = w.create_entity().unwrap();
    w.attach_position(e, Position(Vec3 { x: pos[0], y: pos[1], z: pos[2] })).unwrap();
    w.attach_velocity(e, Velocity(Vec3 { x: vel[0], y: vel[1], z: vel[2] })).unwrap();
    w.attach_acceleration(e, Acceleration(Vec3 { x: 0, y: 0, z: 0 })).unwrap();
    w.attach_mass(e, Mass(mass)).unwrap();
    e
}

fn accel_of(w: &World, e: EntityId) -> Vec3 {
    w.acceleration(e).unwrap().0
}

#[test]
fn isqrt_exact_and_floor() {
    assert_eq!(isqrt(0), 0);
    assert_eq!(isqrt(1), 1);
    assert_eq!(isqrt(3), 1);
    assert_eq!(isqrt(4), 2);
    assert_eq!(isqrt(10u128.pow(34)), 10u128.pow(17));
    assert_eq!(isqrt(10u128.pow(34) - 1), 10u128.pow(17) - 1);
}

#[test]
fn two_body_single_frame() {
    // A heavy body at the origin and a light one a tenth of a terametre out,
    // one second of simulated time at unit speed.
    let mut w = World::new();
    w.sim_speed = SimSpeed(1_000_000);
    let a = body(&mut w, [0, 0, 0], [0, 0, 0], 1_000_000_000_000_000_000_000_000_000_000);
    let b = body(&mut w, [100_000_000_000_000_000, 0, 0], [0, 0, 30_000_000_000], 1);
    let mut timer = Timer { last: Some(0) };
    let camctl = ControlCamera::default();
    run_frame(&mut w, &mut timer, &camctl, 1_000_000);
    assert_eq!(w.delta, Delta(1_000_000));
    // G * 1e30 / (1e11 m)^2 = 6.67e-3 m/s², i.e. 6670 µm/s², toward A.
    assert_eq!(accel_of(&w, b), Vec3 { x: -6670, y: 0, z: 0 });
    assert_eq!(accel_of(&w, a), Vec3 { x: 0, y: 0, z: 0 });
    // Semi-implicit Euler: velocity first, position from the new velocity.
    assert_eq!(w.velocity(b).unwrap().0, Vec3 { x: -6670, y: 0, z: 30_000_000_000 });
    assert_eq!(
        w.position(b).unwrap().0,
        Vec3 { x: 100_000_000_000_000_000 - 6670, y: 0, z: 30_000_000_000 }
    );
    assert_eq!(w.position(a).unwrap().0, Vec3 { x: 0, y: 0, z: 0 });
}

#[test]
fn gravity_direction_and_symmetry() {
    // A body midway between two equal masses feels no net pull.
    let mut w = World::new();
    let mid = body(&mut w, [0, 0, 0], [0, 0, 0], 1_000);
    body(&mut w, [50_000_000_000_000, 0, 0], [0, 0, 0], 1_000_000_000_000_000_000_000_000_000);
    body(&mut w, [-50_000_000_000_000, 0, 0], [0, 0, 0], 1_000_000_000_000_000_000_000_000_000);
    Gravity.run(&mut w);
    assert_eq!(accel_of(&w, mid), Vec3 { x: 0, y: 0, z: 0 });
}

#[test]
fn gravity_sum_is_creation_order_independent() {
    // The same two sources, attached in opposite creation orders, give the
    // target exactly the same net acceleration.
    let s1 = ([70_000_000_000_000_000i64, 0, 0], 1_900_000_000_000_000_000_000_000_000_000u128);
    let s2 = ([0i64, 31_000_000_000_000_000, 5_000_000_000_000_000], 5_000_000_000_000_000_000_000_000u128);
    let mut w1 = World::new();
    let t1 = body(&mut w1, [1_000_000_000_000, -2_000_000_000_000, 0], [0, 0, 0], 7);
    body(&mut w1, s1.0, [0, 0, 0], s1.1);
    body(&mut w1, s2.0, [0, 0, 0], s2.1);
    let mut w2 = World::new();
    let t2 = body(&mut w2, [1_000_000_000_000, -2_000_000_000_000, 0], [0, 0, 0], 7);
    body(&mut w2, s2.0, [0, 0, 0], s2.1);
    body(&mut w2, s1.0, [0, 0, 0], s1.1);
    Gravity.run(&mut w1);
    Gravity.run(&mut w2);
    assert_eq!(accel_of(&w1, t1), accel_of(&w2, t2));
    // And the pull points from the target toward the heavy first source.
    assert!(accel_of(&w1, t1).x > 0);
}

#[test]
fn gravity_twice_is_idempotent() {
    let mut w = World::new();
    let b1 = body(&mut w, [0, 0, 0], [0, 0, 0], 1_989_000_000_000_000_000_000_000_000_000);
    let b2 = body(&mut w, [149_596_000_000_000_000, 0, 0], [0, 0, 0], 5_972_400_000_000_000_000_000_000);
    Gravity.run(&mut w);
    let first = (accel_of(&w, b1), accel_of(&w, b2));
    Gravity.run(&mut w);
    assert_eq!((accel_of(&w, b1), accel_of(&w, b2)), first);
}

#[test]
fn coincident_bodies_exert_nothing() {
    let mut w = World::new();
    let b1 = body(&mut w, [5, 5, 5], [0, 0, 0], 2_000_000_000_000_000_000_000_000_000_000);
    let b2 = body(&mut w, [5, 5, 5], [0, 0, 0], 2_000_000_000_000_000_000_000_000_000_000);
    Gravity.run(&mut w);
    assert_eq!(accel_of(&w, b1), Vec3 { x: 0, y: 0, z: 0 });
    assert_eq!(accel_of(&w, b2), Vec3 { x: 0, y: 0, z: 0 });
}

#[test]
fn integrator_skips_entities_without_position() {
    // A velocity-and-acceleration slot with no position is not integrated:
    // spec-wise only entities with at least velocity and position move.
    let mut w = World::new();
    w.sim_speed = SimSpeed(1_000_000);
    w.delta = Delta(1_000_000);
    let e = w.create_entity().unwrap();
    w.attach_velocity(e, Velocity(Vec3 { x: 0, y: 0, z: 0 })).unwrap();
    w.attach_acceleration(e, Acceleration(Vec3 { x: 1_000_000, y: 0, z: 0 })).unwrap();
    Mechanics.run(&mut w);
    assert_eq!(w.velocity(e).unwrap().0, Vec3 { x: 0, y: 0, z: 0 });
    assert!(w.position(e).is_none());
}

#[test]
fn integrator_is_semi_implicit() {
    // Constant acceleration, two seconds at unit speed: the position must
    // move by the *new* velocity, p0 + (v0 + a·dt)·dt, not by the old one.
    let mut w = World::new();
    w.sim_speed = SimSpeed(1_000_000);
    w.delta = Delta(2_000_000);
    let e = w.create_entity().unwrap();
    w.attach_position(e, Position(Vec3 { x: 0, y: 0, z: 0 })).unwrap();
    w.attach_velocity(e, Velocity(Vec3 { x: 1_000, y: 0, z: 0 })).unwrap();
    w.attach_acceleration(e, Acceleration(Vec3 { x: 500, y: 0, z: 0 })).unwrap();
    Mechanics.run(&mut w);
    assert_eq!(w.velocity(e).unwrap().0.x, 2_000);
    assert_eq!(w.position(e).unwrap().0.x, 4_000);
    assert_ne!(w.position(e).unwrap().0.x, 2_000);
}

#[test]
fn orbit_stays_bounded() {
    // A light body on a near-circular orbit around a heavy one: a hundred
    // thousand-second steps must neither escape nor collapse.
    let mut w = World::new();
    w.sim_speed = SimSpeed(1_000_000);
    w.delta = Delta(1_000_000_000);
    body(&mut w, [0, 0, 0], [0, 0, 0], 1_000_000_000_000_000_000_000_000_000_000);
    let b = body(&mut w, [100_000_000_000_000_000, 0, 0], [0, 0, 25_826_000_000], 1);
    let r0: i128 = 100_000_000_000_000_000;
    for _ in 0..100 {
        Gravity.run(&mut w);
        Mechanics.run(&mut w);
    }
    let p = w.position(b).unwrap().0;
    let r2 = (p.x as i128) * (p.x as i128) + (p.y as i128) * (p.y as i128)
        + (p.z as i128) * (p.z as i128);
    let lo = r0 * 95 / 100;
    let hi = r0 * 105 / 100;
    assert!(r2 > lo * lo, "orbit collapsed: r2 = {r2}");
    assert!(r2 < hi * hi, "orbit escaped: r2 = {r2}");
}

#[test]
fn timer_first_tick_is_zero() {
    let mut t = Timer::default();
    let mut d = Delta(77);
    t.run(5_000_000, &mut d);
    assert_eq!(d, Delta(0));
    t.run(7_500_000, &mut d);
    assert_eq!(d, Delta(2_500_000));
}

#[test]
fn timer_clamps_backward_and_stalled_clocks() {
    let mut t = Timer { last: Some(9_000_000) };
    let mut d = Delta(0);
    t.run(4_000_000, &mut d);
    assert_eq!(d, Delta(0));
    let mut t2 = Timer { last: Some(0) };
    t2.run(u64::MAX, &mut d);
    assert_eq!(d, Delta(DELTA_LIMIT));
}

#[test]
fn controls_keyboard_mapping() {
    let mut c = Controls::default();
    assert!(c.process_keyboard(Key::W, true));
    assert!(c.is_forward_pressed);
    assert!(c.process_keyboard(Key::UpArrow, false));
    assert!(!c.is_forward_pressed);
    assert!(c.process_keyboard(Key::Space, true));
    assert!(c.is_up_pressed);
    assert!(c.process_keyboard(Key::LeftShift, true));
    assert!(c.is_down_pressed);
    assert!(c.process_keyboard(Key::A, true));
    assert!(c.is_left_pressed);
    assert!(c.process_keyboard(Key::D, true));
    assert!(c.is_right_pressed);
    assert!(c.process_keyboard(Key::S, true));
    assert!(c.is_backward_pressed);
    assert!(!c.process_keyboard(Key::Other, true));
}

#[test]
fn controls_accumulate_and_wheel_scales() {
    let mut c = Controls::default();
    c.process_mouse(10, -4);
    c.process_mouse(5, 1);
    assert_eq!(c.mouse_dx, 15);
    assert_eq!(c.mouse_dy, -3);
    c.process_wheel(ScrollDelta::Lines(3_000_000));
    assert_eq!(c.mouse_scroll, -1_500_000);
    c.process_wheel(ScrollDelta::Pixels(-500_000));
    assert_eq!(c.mouse_scroll, -1_000_000);
}

#[test]
fn camera_pitch_never_leaves_clamp() {
    let mut w = World::new();
    let camctl = ControlCamera::default();
    w.delta = Delta(1_000_000);
    for _ in 0..20 {
        w.controls.process_mouse(0, -1_000_000_000_000);
        camctl.run(&mut w);
        assert!(w.camera.pitch <= PITCH_LIMIT);
        assert!(w.camera.pitch >= -PITCH_LIMIT);
    }
    assert_eq!(w.camera.pitch, PITCH_LIMIT);
    for _ in 0..40 {
        w.controls.process_mouse(0, 1_000_000_000_000);
        camctl.run(&mut w);
        assert!(w.camera.pitch.abs() <= PITCH_LIMIT);
    }
    assert_eq!(w.camera.pitch, -PITCH_LIMIT);
}

#[test]
fn camera_drains_accumulators_every_frame() {
    let mut w = World::new();
    let camctl = ControlCamera::default();
    w.delta = Delta(16_000);
    w.controls.process_mouse(123, 456);
    w.controls.process_wheel(ScrollDelta::Pixels(789));
    camctl.run(&mut w);
    assert_eq!(w.controls.mouse_dx, 0);
    assert_eq!(w.controls.mouse_dy, 0);
    assert_eq!(w.controls.mouse_scroll, 0);
    // A frame with no new input still leaves them at zero.
    camctl.run(&mut w);
    assert_eq!(w.controls.mouse_dx, 0);
    assert_eq!(w.controls.mouse_dy, 0);
    assert_eq!(w.controls.mouse_scroll, 0);
}

#[test]
fn camera_yaw_stays_normalized_and_moves_forward() {
    let mut w = World::new();
    let camctl = ControlCamera::default();
    w.delta = Delta(1_000_000);
    w.controls.process_keyboard(Key::W, true);
    camctl.run(&mut w);
    // Looking along +x at zero yaw, one second at speed ten moves ten units.
    assert_eq!(w.camera.position.x, 10_000_000);
    assert!(w.camera.yaw >= 0 && w.camera.yaw < TAU_URAD);
    // Opposing flags cancel.
    w.controls.process_keyboard(Key::S, true);
    let x0 = w.camera.position.x;
    camctl.run(&mut w);
    assert_eq!(w.camera.position.x, x0);
}

#[test]
fn camera_direction_at_rest_is_forward() {
    let cam = Camera::default();
    let d = cam.direction();
    assert_eq!(d.y, 0);
    assert_eq!(d.z, 0);
    assert!(d.x > 990_000 && d.x <= 1_000_000);
}

#[test]
fn camera_direction_never_vertical_at_the_clamp() {
    // Even hard against the pitch clamp the look direction keeps a
    // nonzero horizontal part.
    let up = Camera { position: Vec3 { x: 0, y: 0, z: 0 }, yaw: 0, pitch: PITCH_LIMIT };
    let d = up.direction();
    assert!(d.x > 0);
    assert!(d.y > 999_000);
    let down = Camera { position: Vec3 { x: 0, y: 0, z: 0 }, yaw: 0, pitch: -PITCH_LIMIT };
    let d2 = down.direction();
    assert!(d2.x > 0);
    assert!(d2.y < -999_000);
}

#[test]
fn scheduler_orders_the_pipeline() {
    let decls = core_declarations();
    let order = schedule(&decls).unwrap();
    let pos = |i: usize| order.iter().position(|&x| x == i).unwrap();
    assert_eq!(order.len(), 5);
    // Timer before the integrator, gravity before the integrator, and the
    // timer before gravity, which reads the frame delta.
    assert!(pos(0) < pos(3));
    assert!(pos(2) < pos(3));
    assert!(pos(0) < pos(2));
    // The camera controls run after the timer, the terminal consumer last.
    assert!(pos(0) < pos(1));
    assert_eq!(*order.last().unwrap(), 4);
}

#[test]
fn scheduler_rejects_cycles() {
    let decls = vec![
        SystemDecl {
            reads: vec![ResourceId::CameraState],
            writes: vec![ResourceId::DeltaTime],
            independent: vec![],
            thread_local: false,
        },
        SystemDecl {
            reads: vec![ResourceId::DeltaTime],
            writes: vec![ResourceId::CameraState],
            independent: vec![],
            thread_local: false,
        },
    ];
    assert!(schedule(&decls).is_err());
}

#[test]
fn scheduler_flags_independent_systems() {
    let decls = core_declarations();
    // Camera control and gravity touch disjoint data and may run together.
    assert!(solar_sim::schedule::independent(&decls, 1, 2));
    // The timer writes what the integrator reads.
    assert!(!solar_sim::schedule::independent(&decls, 0, 3));
}

#[test]
fn removals_wait_for_the_barrier() {
    let mut w = World::new();
    let e = body(&mut w, [1, 2, 3], [0, 0, 0], 10);
    w.remove_entity(e).unwrap();
    // Still visible until the synchronization point.
    assert!(w.is_alive(e));
    assert!(w.position(e).is_some());
    w.maintain();
    assert!(!w.is_alive(e));
    assert!(w.position(e).is_none());
    assert!(w.mass(e).is_none());
}

#[test]
fn attach_rejects_bad_values_and_dead_slots() {
    let mut w = World::new();
    let e = w.create_entity().unwrap();
    assert!(w.attach_mass(e, Mass(0)).is_err());
    assert!(w.attach_position(EntityId(5), Position(Vec3 { x: 0, y: 0, z: 0 })).is_err());
    assert!(w.attach_position(e, Position(Vec3 { x: i64::MAX, y: 0, z: 0 })).is_err());
    assert!(w.attach_position(e, Position(Vec3 { x: 7, y: 8, z: 9 })).is_ok());
}

#[test]
fn seeded_planets_match_the_table() {
    let mut w = World::new();
    build_planets(&mut w);
    assert_eq!(w.slot_count(), 9);
    for k in 0..9usize {
        let e = EntityId(k);
        assert!(w.is_alive(e));
        assert!(w.is_planet(e));
        assert_eq!(w.acceleration(e).unwrap().0, Vec3 { x: 0, y: 0, z: 0 });
    }
    assert_eq!(w.mass(EntityId(0)).unwrap().0, 1_989_000_000_000_000_000_000_000_000_000);
    assert_eq!(w.position(EntityId(3)).unwrap().0.x, 149_596_000_000_000_000);
    assert_eq!(w.velocity(EntityId(3)).unwrap().0.z, 29_780_000_000);
    assert_eq!(w.position(EntityId(8)).unwrap().0.x, 4_495_060_000_000_000_000);
}

#[test]
fn sim_speed_defaults_to_a_thousand() {
    let w = World::new();
    assert_eq!(w.sim_speed, SimSpeed(1_000_000_000));
}

#[test]
fn error_carries_its_message() {
    let e = CustomError::new("cyclic system dependencies".to_string());
    assert_eq!(e.message().as_str(), "cyclic system dependencies");
}

#[test]
fn join_lists_exactly_the_equipped_entities() {
    let mut w = World::new();
    let full = body(&mut w, [1, 0, 0], [0, 0, 0], 5);
    let bare = w.create_entity().unwrap();
    let placed = w.create_entity().unwrap();
    w.attach_position(placed, Position(Vec3 { x: 2, y: 0, z: 0 })).unwrap();
    let all = w.entities_with(true, true, true, true);
    assert_eq!(all, vec![full]);
    let positioned = w.entities_with(false, true, false, false);
    assert_eq!(positioned, vec![full, placed]);
    let everyone = w.entities_with(false, false, false, false);
    assert_eq!(everyone, vec![full, bare, placed]);
    // A removed entity leaves every join after the barrier.
    w.remove_entity(full).unwrap();
    w.maintain();
    assert_eq!(w.entities_with(false, true, false, false), vec![placed]);
}
