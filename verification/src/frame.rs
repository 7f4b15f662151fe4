//! One frame of the simulation, driven by an external redraw signal.
//!
//! The core has no timer of its own: the boundary calls [`run_frame`] once
//! per redraw with the present clock reading, and applies the structural
//! barrier ([`crate::world::World::maintain`]) when the frame's systems are
//! done, exactly as the scheduler's read-after-write chain demands:
//! timer, then camera control, then gravity, then the integrator.

use vstd::prelude::*;
use crate::camera::{camera_step, control_camera_ok, drained, ControlCamera};
use crate::physics::{
    gravity_accel, grav_target, new_position, new_velocity, Acceleration, Gravity,
    Mechanics, Position, Velocity,
};
use crate::schedule::{ResourceId, SystemDecl};
use crate::timer::{delta_of, Timer};
use crate::world::World;

verus! {

/// The acceleration entity `i` holds once the frame's gravity pass ran
/// over the state `w` the frame began with.
pub open spec fn frame_accel(w: World, i: int) -> Option<Acceleration> {
    if grav_target(w, i) {
        Some(Acceleration(gravity_accel(w, i)))
    } else {
        w.accelerations@[i]
    }
}

/// The velocity entity `i` holds at the end of a frame that began in `w`
/// and measured `dt` microseconds: folded forward only for a live, placed
/// entity, and only where an acceleration is present.
pub open spec fn frame_vel(w: World, dt: int, i: int) -> Option<Velocity> {
    if w.live(i) && w.positions@[i] is Some {
        match (w.velocities@[i], frame_accel(w, i)) {
            (Some(v), Some(a)) => Some(Velocity(new_velocity(v.0, a.0, dt, w.sim_speed.0 as int))),
            _ => w.velocities@[i],
        }
    } else {
        w.velocities@[i]
    }
}

/// The position entity `i` holds at the end of such a frame: a live entity
/// with position and velocity moves by the frame's *new* velocity.
pub open spec fn frame_pos(w: World, dt: int, i: int) -> Option<Position> {
    if w.live(i) {
        match (w.positions@[i], w.velocities@[i]) {
            (Some(p), Some(_)) => Some(
                Position(
                    new_position(p.0, (frame_vel(w, dt, i)->0).0, dt, w.sim_speed.0 as int),
                ),
            ),
            _ => w.positions@[i],
        }
    } else {
        w.positions@[i]
    }
}

/// Advance the simulation by one frame: publish the elapsed time, run the
/// camera controls on the drained input, recompute every acceleration from
/// the current positions and masses, and integrate.
///
/// Structural changes stay queued; the caller applies them at the barrier
/// with [`World::maintain`] once the frame is over.
pub fn run_frame(w: &mut World, timer: &mut Timer, camctl: &ControlCamera, now_us: u64)
    requires
        old(w).wf(),
        control_camera_ok(*camctl),
    ensures
        final(w).wf(),
        final(timer).last == Some(now_us),
        final(w).delta.0 == delta_of(old(timer).last, now_us),
        final(w).sim_speed == old(w).sim_speed,
        final(w).camera == camera_step(
            *camctl,
            old(w).camera,
            old(w).controls,
            delta_of(old(timer).last, now_us),
        ),
        final(w).controls == drained(old(w).controls),
        final(w).slots() == old(w).slots(),
        final(w).alive@ == old(w).alive@,
        final(w).masses@ == old(w).masses@,
        final(w).planets@ == old(w).planets@,
        final(w).pending_removals@ == old(w).pending_removals@,
        forall|i: int|
            0 <= i < old(w).slots() ==> final(w).accelerations@[i] == #[trigger] frame_accel(
                *old(w),
                i,
            ),
        forall|i: int|
            0 <= i < old(w).slots() ==> final(w).velocities@[i] == #[trigger] frame_vel(
                *old(w),
                delta_of(old(timer).last, now_us),
                i,
            ),
        forall|i: int|
            0 <= i < old(w).slots() ==> final(w).positions@[i] == #[trigger] frame_pos(
                *old(w),
                delta_of(old(timer).last, now_us),
                i,
            ),
{
    let ghost w0 = *w;
    timer.run(now_us, &mut w.delta);
    let ghost w1 = *w;
    camctl.run(w);
    let ghost w2 = *w;
    let gravity = Gravity;
    gravity.run(w);
    let ghost w3 = *w;
    let mechanics = Mechanics;
    mechanics.run(w);
    proof {
        assert forall|i: int| 0 <= i < w0.slots() implies w.accelerations@[i]
            == #[trigger] frame_accel(w0, i) by {
            assert(grav_target(w2, i) == grav_target(w0, i));
            if grav_target(w2, i) {
                crate::physics::lemma_gravity_pure(w2, w0, i);
            }
        }
        assert forall|i: int| 0 <= i < w0.slots() implies w.velocities@[i] == #[trigger] frame_vel(
            w0,
            delta_of(old(timer).last, now_us),
            i,
        ) by {
            assert(w3.velocities@[i] == w0.velocities@[i]);
            assert(w3.accelerations@[i] == frame_accel(w0, i));
        }
        assert forall|i: int| 0 <= i < w0.slots() implies w.positions@[i] == #[trigger] frame_pos(
            w0,
            delta_of(old(timer).last, now_us),
            i,
        ) by {
            assert(w3.positions@[i] == w0.positions@[i]);
            assert(w3.velocities@[i] == w0.velocities@[i]);
            assert(w3.accelerations@[i] == frame_accel(w0, i));
            if w0.live(i) && w0.positions@[i] is Some && w0.velocities@[i] is Some {
                assert(crate::physics::vel_after(w3, i) == (frame_vel(
                    w0,
                    delta_of(old(timer).last, now_us),
                    i,
                )->0).0);
            }
        }
    }
}

/// The declared read/write footprints of the frame's systems, in pipeline
/// order: timer, camera control, gravity, the integrator, and the
/// thread-local render consumer. Gravity reads the frame delta the timer
/// writes, keeping it inside the strict timer-first chain, and declares
/// its position read independent: it works from the positions standing when the frame
/// begins, so the integrator's writes impose no order on it and the
/// strict chain timer, gravity, integrator stays acyclic. Feeding them to
/// [`crate::schedule::schedule`] yields a valid execution order, and
/// [`crate::schedule::lemma_core_pipeline_order`] shows every valid order
/// runs the timer and gravity before the integrator.
pub fn core_declarations() -> (decls: Vec<SystemDecl>)
    ensures
        decls@.len() == 5,
        decls@[0].writes@ == seq![ResourceId::DeltaTime],
        decls@[0].reads@ == Seq::<ResourceId>::empty(),
        decls@[0].independent@ == Seq::<ResourceId>::empty(),
        !decls@[0].thread_local,
        decls@[1].reads@ == seq![ResourceId::DeltaTime, ResourceId::ControlState],
        decls@[1].writes@ == seq![ResourceId::CameraState, ResourceId::ControlState],
        !decls@[1].thread_local,
        decls@[2].reads@ == seq![
            ResourceId::DeltaTime,
            ResourceId::PositionData,
            ResourceId::MassData,
        ],
        decls@[2].writes@ == seq![ResourceId::AccelerationData],
        decls@[2].independent@ == seq![ResourceId::PositionData],
        !decls@[2].thread_local,
        decls@[3].reads@ == seq![
            ResourceId::DeltaTime,
            ResourceId::SimulationSpeed,
            ResourceId::AccelerationData,
        ],
        decls@[3].writes@ == seq![ResourceId::VelocityData, ResourceId::PositionData],
        decls@[3].independent@ == Seq::<ResourceId>::empty(),
        !decls@[3].thread_local,
        decls@[4].reads@ == seq![ResourceId::CameraState, ResourceId::PositionData],
        decls@[4].writes@ == Seq::<ResourceId>::empty(),
        decls@[4].thread_local,
{
    let mut decls: Vec<SystemDecl> = Vec::new();
    let mut timer_writes: Vec<ResourceId> = Vec::new();
    timer_writes.push(ResourceId::DeltaTime);
    decls.push(SystemDecl { reads: Vec::new(), writes: timer_writes, independent: Vec::new(), thread_local: false });
    let mut cam_reads: Vec<ResourceId> = Vec::new();
    cam_reads.push(ResourceId::DeltaTime);
    cam_reads.push(ResourceId::ControlState);
    let mut cam_writes: Vec<ResourceId> = Vec::new();
    cam_writes.push(ResourceId::CameraState);
    cam_writes.push(ResourceId::ControlState);
    decls.push(SystemDecl { reads: cam_reads, writes: cam_writes, independent: Vec::new(), thread_local: false });
    let mut grav_reads: Vec<ResourceId> = Vec::new();
    grav_reads.push(ResourceId::DeltaTime);
    grav_reads.push(ResourceId::PositionData);
    grav_reads.push(ResourceId::MassData);
    let mut grav_writes: Vec<ResourceId> = Vec::new();
    grav_writes.push(ResourceId::AccelerationData);
    let mut grav_indep: Vec<ResourceId> = Vec::new();
    grav_indep.push(ResourceId::PositionData);
    decls.push(SystemDecl { reads: grav_reads, writes: grav_writes, independent: grav_indep, thread_local: false });
    let mut mech_reads: Vec<ResourceId> = Vec::new();
    mech_reads.push(ResourceId::DeltaTime);
    mech_reads.push(ResourceId::SimulationSpeed);
    mech_reads.push(ResourceId::AccelerationData);
    let mut mech_writes: Vec<ResourceId> = Vec::new();
    mech_writes.push(ResourceId::VelocityData);
    mech_writes.push(ResourceId::PositionData);
    decls.push(SystemDecl { reads: mech_reads, writes: mech_writes, independent: Vec::new(), thread_local: false });
    let mut render_reads: Vec<ResourceId> = Vec::new();
    render_reads.push(ResourceId::CameraState);
    render_reads.push(ResourceId::PositionData);
    decls.push(SystemDecl { reads: render_reads, writes: Vec::new(), independent: Vec::new(), thread_local: true });
    proof {
        assert(decls@[0].writes@ =~= seq![ResourceId::DeltaTime]);
        assert(decls@[0].reads@ =~= Seq::<ResourceId>::empty());
        assert(decls@[1].reads@ =~= seq![ResourceId::DeltaTime, ResourceId::ControlState]);
        assert(decls@[1].writes@ =~= seq![ResourceId::CameraState, ResourceId::ControlState]);
        assert(decls@[2].reads@ =~= seq![
            ResourceId::DeltaTime,
            ResourceId::PositionData,
            ResourceId::MassData,
        ]);
        assert(decls@[2].writes@ =~= seq![ResourceId::AccelerationData]);
        assert(decls@[2].independent@ =~= seq![ResourceId::PositionData]);
        assert(decls@[3].independent@ =~= Seq::<ResourceId>::empty());
        assert(decls@[0].independent@ =~= Seq::<ResourceId>::empty());
        assert(decls@[3].reads@ =~= seq![
            ResourceId::DeltaTime,
            ResourceId::SimulationSpeed,
            ResourceId::AccelerationData,
        ]);
        assert(decls@[3].writes@ =~= seq![ResourceId::VelocityData, ResourceId::PositionData]);
        assert(decls@[4].reads@ =~= seq![ResourceId::CameraState, ResourceId::PositionData]);
        assert(decls@[4].writes@ =~= Seq::<ResourceId>::empty());
    }
    decls
}

} // verus!
