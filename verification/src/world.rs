//! The entity/component store and the shared-resource store.
//!
//! Entities are slot indices into per-component tables; all state lives in
//! the component values. Removals requested during a frame are queued and
//! applied only at the frame's synchronization barrier ([`World::maintain`]),
//! so no live iteration is ever invalidated.

use vstd::prelude::*;
use crate::camera::{camera_ok, Camera};
use crate::control::{controls_ok, Controls};
use crate::error::CustomError;
use crate::physics::{
    acceleration_ok, mass_ok, position_ok, speed_ok, velocity_ok, Acceleration, Mass, Planet,
    Position, SimSpeed, Velocity,
};
use crate::timer::Delta;
use crate::units::{DELTA_LIMIT, ENTITY_LIMIT};

verus! {

/// An opaque entity identifier: a join key across the component tables.
#[derive(Copy, Clone, Debug, PartialEq, Eq, Structural)]
pub struct EntityId(pub usize);

/// Whether some slot of `s` holds the index `i`.
pub open spec fn listed(s: Seq<usize>, i: int) -> bool {
    exists|k: int| 0 <= k < s.len() && s[k] == i
}

/// The simulation world: one table per component type, all indexed by
/// entity slot, plus the shared resources the systems read and write.
pub struct World {
    /// Which entity slots are live.
    pub alive: Vec<bool>,
    pub positions: Vec<Option<Position>>,
    pub velocities: Vec<Option<Velocity>>,
    pub accelerations: Vec<Option<Acceleration>>,
    pub masses: Vec<Option<Mass>>,
    /// Presence of the payload-free planet marker.
    pub planets: Vec<bool>,
    /// Entities whose removal waits for the frame barrier.
    pub pending_removals: Vec<usize>,
    /// Elapsed-time resource, written by the timer each frame.
    pub delta: Delta,
    /// Global speed multiplier applied by the integrator.
    pub sim_speed: SimSpeed,
    /// Shared camera resource, written by camera control.
    pub camera: Camera,
    /// Shared input-state resource, written by the input boundary.
    pub controls: Controls,
}

impl World {
    /// Number of entity slots.
    pub open spec fn slots(self) -> int {
        self.alive@.len() as int
    }

    /// Well-formedness: the tables agree on their length, every stored
    /// component value is inside its bounds, and so are the resources.
    pub open spec fn wf(self) -> bool {
        let n = self.alive@.len();
        &&& n <= ENTITY_LIMIT
        &&& self.positions@.len() == n
        &&& self.velocities@.len() == n
        &&& self.accelerations@.len() == n
        &&& self.masses@.len() == n
        &&& self.planets@.len() == n
        &&& forall|i: int|
            0 <= i < n ==> (#[trigger] self.positions@[i] matches Some(p) ==> position_ok(p))
        &&& forall|i: int|
            0 <= i < n ==> (#[trigger] self.velocities@[i] matches Some(v) ==> velocity_ok(v))
        &&& forall|i: int|
            0 <= i < n ==> (#[trigger] self.accelerations@[i] matches Some(a)
                ==> acceleration_ok(a))
        &&& forall|i: int|
            0 <= i < n ==> (#[trigger] self.masses@[i] matches Some(m) ==> mass_ok(m))
        &&& forall|k: int|
            0 <= k < self.pending_removals@.len() ==> #[trigger] self.pending_removals@[k] < n
        &&& self.delta.0 <= DELTA_LIMIT
        &&& speed_ok(self.sim_speed)
        &&& camera_ok(self.camera)
        &&& controls_ok(self.controls)
    }

    /// A fresh world: no entities, default resources.
    pub fn new() -> (w: World)
        ensures
            w.wf(),
            w.slots() == 0,
            w.pending_removals@.len() == 0,
            w.delta.0 == 0,
            w.sim_speed.0 == 1_000_000_000,
            w.camera == (Camera { position: crate::math::Vec3 { x: 0, y: 0, z: 0 }, yaw: 0, pitch: 0 }),
            w.controls == Controls::initial(),
    {
        World {
            alive: Vec::new(),
            positions: Vec::new(),
            velocities: Vec::new(),
            accelerations: Vec::new(),
            masses: Vec::new(),
            planets: Vec::new(),
            pending_removals: Vec::new(),
            delta: Delta::default(),
            sim_speed: SimSpeed::default(),
            camera: Camera::default(),
            controls: Controls::default(),
        }
    }

    /// Open a fresh entity slot with no components attached.
    ///
    /// Fails only when the world already holds [`ENTITY_LIMIT`] slots.
    pub fn create_entity(&mut self) -> (r: Result<EntityId, CustomError>)
        requires
            old(self).wf(),
        ensures
            final(self).wf(),
            old(self).slots() < ENTITY_LIMIT ==> r is Ok,
            match r {
                Ok(e) => {
                    &&& e.0 == old(self).slots()
                    &&& final(self).alive@ == old(self).alive@.push(true)
                    &&& final(self).positions@ == old(self).positions@.push(None::<Position>)
                    &&& final(self).velocities@ == old(self).velocities@.push(None::<Velocity>)
                    &&& final(self).accelerations@ == old(self).accelerations@.push(
                        None::<Acceleration>,
                    )
                    &&& final(self).masses@ == old(self).masses@.push(None::<Mass>)
                    &&& final(self).planets@ == old(self).planets@.push(false)
                    &&& final(self).same_but_tables(*old(self))
                },
                Err(_) => *final(self) == *old(self) && old(self).slots() == ENTITY_LIMIT,
            },
    {
        if self.alive.len() >= ENTITY_LIMIT {
            return Err(CustomError::new("entity limit reached".to_string()));
        }
        let e = EntityId(self.alive.len());
        self.alive.push(true);
        self.positions.push(None);
        self.velocities.push(None);
        self.accelerations.push(None);
        self.masses.push(None);
        self.planets.push(false);
        Ok(e)
    }

    /// Everything outside the component tables agrees between two worlds.
    pub open spec fn same_but_tables(self, other: World) -> bool {
        &&& self.pending_removals@ == other.pending_removals@
        &&& self.delta == other.delta
        &&& self.sim_speed == other.sim_speed
        &&& self.camera == other.camera
        &&& self.controls == other.controls
    }

    /// The slot is a live entity.
    pub open spec fn live(self, e: int) -> bool {
        0 <= e < self.slots() && self.alive@[e]
    }

    /// Attach (or overwrite) a position component.
    ///
    /// Fails exactly when the entity is not live or a coordinate is out of
    /// the world's bounds; the world is then unchanged.
    pub fn attach_position(&mut self, e: EntityId, p: Position) -> (r: Result<(), CustomError>)
        requires
            old(self).wf(),
        ensures
            final(self).wf(),
            r is Ok <==> (old(self).live(e.0 as int) && position_ok(p)),
            r is Ok ==> *final(self) == (World {
                positions: final(self).positions,
                ..*old(self)
            }) && final(self).positions@ == old(self).positions@.update(e.0 as int, Some(p)),
            r is Err ==> *final(self) == *old(self),
    {
        if e.0 < self.alive.len() && self.alive[e.0] && position_in_bounds(&p) {
            self.positions.set(e.0, Some(p));
            Ok(())
        } else {
            Err(CustomError::new("cannot attach position".to_string()))
        }
    }

    /// Attach (or overwrite) a velocity component; fails as
    /// [`World::attach_position`] does.
    pub fn attach_velocity(&mut self, e: EntityId, v: Velocity) -> (r: Result<(), CustomError>)
        requires
            old(self).wf(),
        ensures
            final(self).wf(),
            r is Ok <==> (old(self).live(e.0 as int) && velocity_ok(v)),
            r is Ok ==> *final(self) == (World {
                velocities: final(self).velocities,
                ..*old(self)
            }) && final(self).velocities@ == old(self).velocities@.update(e.0 as int, Some(v)),
            r is Err ==> *final(self) == *old(self),
    {
        if e.0 < self.alive.len() && self.alive[e.0] && velocity_in_bounds(&v) {
            self.velocities.set(e.0, Some(v));
            Ok(())
        } else {
            Err(CustomError::new("cannot attach velocity".to_string()))
        }
    }

    /// Attach (or overwrite) an acceleration component; fails as
    /// [`World::attach_position`] does.
    pub fn attach_acceleration(&mut self, e: EntityId, a: Acceleration) -> (r: Result<
        (),
        CustomError,
    >)
        requires
            old(self).wf(),
        ensures
            final(self).wf(),
            r is Ok <==> (old(self).live(e.0 as int) && acceleration_ok(a)),
            r is Ok ==> *final(self) == (World {
                accelerations: final(self).accelerations,
                ..*old(self)
            }) && final(self).accelerations@ == old(self).accelerations@.update(
                e.0 as int,
                Some(a),
            ),
            r is Err ==> *final(self) == *old(self),
    {
        if e.0 < self.alive.len() && self.alive[e.0] && acceleration_in_bounds(&a) {
            self.accelerations.set(e.0, Some(a));
            Ok(())
        } else {
            Err(CustomError::new("cannot attach acceleration".to_string()))
        }
    }

    /// Attach a mass component; fails when the entity is not live or the
    /// mass is zero or above [`crate::units::MASS_LIMIT`].
    pub fn attach_mass(&mut self, e: EntityId, m: Mass) -> (r: Result<(), CustomError>)
        requires
            old(self).wf(),
        ensures
            final(self).wf(),
            r is Ok <==> (old(self).live(e.0 as int) && mass_ok(m)),
            r is Ok ==> *final(self) == (World { masses: final(self).masses, ..*old(self) })
                && final(self).masses@ == old(self).masses@.update(e.0 as int, Some(m)),
            r is Err ==> *final(self) == *old(self),
    {
        if e.0 < self.alive.len() && self.alive[e.0] && 0 < m.0 && m.0
            <= crate::units::MASS_LIMIT {
            self.masses.set(e.0, Some(m));
            Ok(())
        } else {
            Err(CustomError::new("cannot attach mass".to_string()))
        }
    }

    /// Set the planet marker; fails when the entity is not live.
    pub fn attach_planet(&mut self, e: EntityId, _marker: Planet) -> (r: Result<(), CustomError>)
        requires
            old(self).wf(),
        ensures
            final(self).wf(),
            r is Ok <==> old(self).live(e.0 as int),
            r is Ok ==> *final(self) == (World { planets: final(self).planets, ..*old(self) })
                && final(self).planets@ == old(self).planets@.update(e.0 as int, true),
            r is Err ==> *final(self) == *old(self),
    {
        if e.0 < self.alive.len() && self.alive[e.0] {
            self.planets.set(e.0, true);
            Ok(())
        } else {
            Err(CustomError::new("cannot attach planet marker".to_string()))
        }
    }

    /// Queue an entity for removal at the frame barrier. The entity stays
    /// visible to every system until [`World::maintain`] runs.
    pub fn remove_entity(&mut self, e: EntityId) -> (r: Result<(), CustomError>)
        requires
            old(self).wf(),
        ensures
            final(self).wf(),
            r is Ok <==> e.0 < old(self).slots(),
            r is Ok ==> *final(self) == (World {
                pending_removals: final(self).pending_removals,
                ..*old(self)
            }) && final(self).pending_removals@ == old(self).pending_removals@.push(e.0),
            r is Err ==> *final(self) == *old(self),
    {
        if e.0 < self.alive.len() {
            self.pending_removals.push(e.0);
            Ok(())
        } else {
            Err(CustomError::new("no such entity".to_string()))
        }
    }

    /// The frame barrier: apply every queued removal, clearing the slot and
    /// all its components, then forget the queue. Nothing else changes.
    pub fn maintain(&mut self)
        requires
            old(self).wf(),
        ensures
            final(self).wf(),
            final(self).slots() == old(self).slots(),
            final(self).pending_removals@.len() == 0,
            forall|i: int|
                0 <= i < old(self).slots() ==> final(self).alive@[i] == (old(self).alive@[i]
                    && !listed(old(self).pending_removals@, i)),
            forall|i: int|
                0 <= i < old(self).slots() ==> final(self).positions@[i] == (
                if listed(old(self).pending_removals@, i) {
                    None::<Position>
                } else {
                    old(self).positions@[i]
                }),
            forall|i: int|
                0 <= i < old(self).slots() ==> final(self).velocities@[i] == (
                if listed(old(self).pending_removals@, i) {
                    None::<Velocity>
                } else {
                    old(self).velocities@[i]
                }),
            forall|i: int|
                0 <= i < old(self).slots() ==> final(self).accelerations@[i] == (
                if listed(old(self).pending_removals@, i) {
                    None::<Acceleration>
                } else {
                    old(self).accelerations@[i]
                }),
            forall|i: int|
                0 <= i < old(self).slots() ==> final(self).masses@[i] == (
                if listed(old(self).pending_removals@, i) {
                    None::<Mass>
                } else {
                    old(self).masses@[i]
                }),
            forall|i: int|
                0 <= i < old(self).slots() ==> final(self).planets@[i] == (old(self).planets@[i]
                    && !listed(old(self).pending_removals@, i)),
            final(self).delta == old(self).delta,
            final(self).sim_speed == old(self).sim_speed,
            final(self).camera == old(self).camera,
            final(self).controls == old(self).controls,
    {
        let ghost orig = *self;
        let mut k: usize = 0;
        while k < self.pending_removals.len()
            invariant
                self.wf(),
                k <= self.pending_removals@.len(),
                self.pending_removals@ == orig.pending_removals@,
                self.slots() == orig.slots(),
                orig.wf(),
                forall|i: int|
                    0 <= i < orig.slots() ==> self.alive@[i] == (orig.alive@[i] && !listed(
                        orig.pending_removals@.take(k as int),
                        i,
                    )),
                forall|i: int|
                    0 <= i < orig.slots() ==> self.positions@[i] == (
                    if listed(orig.pending_removals@.take(k as int), i) {
                        None::<Position>
                    } else {
                        orig.positions@[i]
                    }),
                forall|i: int|
                    0 <= i < orig.slots() ==> self.velocities@[i] == (
                    if listed(orig.pending_removals@.take(k as int), i) {
                        None::<Velocity>
                    } else {
                        orig.velocities@[i]
                    }),
                forall|i: int|
                    0 <= i < orig.slots() ==> self.accelerations@[i] == (
                    if listed(orig.pending_removals@.take(k as int), i) {
                        None::<Acceleration>
                    } else {
                        orig.accelerations@[i]
                    }),
                forall|i: int|
                    0 <= i < orig.slots() ==> self.masses@[i] == (
                    if listed(orig.pending_removals@.take(k as int), i) {
                        None::<Mass>
                    } else {
                        orig.masses@[i]
                    }),
                forall|i: int|
                    0 <= i < orig.slots() ==> self.planets@[i] == (orig.planets@[i] && !listed(
                        orig.pending_removals@.take(k as int),
                        i,
                    )),
                self.delta == orig.delta,
                self.sim_speed == orig.sim_speed,
                self.camera == orig.camera,
                self.controls == orig.controls,
            decreases self.pending_removals@.len() - k,
        {
            let e = self.pending_removals[k];
            self.alive.set(e, false);
            self.positions.set(e, None);
            self.velocities.set(e, None);
            self.accelerations.set(e, None);
            self.masses.set(e, None);
            self.planets.set(e, false);
            proof {
                let taken = orig.pending_removals@.take(k as int);
                let taken1 = orig.pending_removals@.take(k as int + 1);
                assert(taken1 =~= taken.push(orig.pending_removals@[k as int]));
                assert forall|i: int| #[trigger] listed(taken1, i) implies (listed(taken, i) || i
                    == e as int) by {
                    let k0 = choose|j: int| 0 <= j < taken1.len() && taken1[j] == i;
                    if k0 < taken.len() {
                        assert(taken[k0] == i);
                    }
                }
                assert forall|i: int| (listed(taken, i) || i == e as int) implies #[trigger] listed(
                    taken1,
                    i,
                ) by {
                    if listed(taken, i) {
                        let k0 = choose|j: int| 0 <= j < taken.len() && taken[j] == i;
                        assert(taken1[k0] == i);
                    } else {
                        assert(taken1[taken1.len() - 1] == e);
                    }
                }
                assert forall|i: int| 0 <= i < orig.slots() implies self.alive@[i] == (
                orig.alive@[i] && !listed(taken1, i)) by {
                    if i == e as int {
                        assert(listed(taken1, i));
                        assert(!self.alive@[i]);
                    } else {
                        assert(listed(taken1, i) == listed(taken, i));
                    }
                }
                assert forall|i: int| 0 <= i < orig.slots() implies self.planets@[i] == (
                orig.planets@[i] && !listed(taken1, i)) by {
                    if i == e as int {
                        assert(listed(taken1, i));
                        assert(!self.planets@[i]);
                    } else {
                        assert(listed(taken1, i) == listed(taken, i));
                    }
                }
            }
            k = k + 1;
        }
        proof {
            assert(orig.pending_removals@.take(k as int) =~= orig.pending_removals@);
        }
        self.pending_removals = Vec::new();
    }

    /// How many entity slots the world holds (live or not).
    pub fn slot_count(&self) -> (n: usize)
        ensures
            n == self.slots(),
    {
        self.alive.len()
    }

    /// Whether the entity is live.
    pub fn is_alive(&self, e: EntityId) -> (r: bool)
        ensures
            r == self.live(e.0 as int),
    {
        e.0 < self.alive.len() && self.alive[e.0]
    }

    /// Read an entity's position, if the slot exists and one is attached.
    pub fn position(&self, e: EntityId) -> (r: Option<Position>)
        ensures
            r == (if 0 <= e.0 < self.positions@.len() {
                self.positions@[e.0 as int]
            } else {
                None::<Position>
            }),
    {
        if e.0 < self.positions.len() {
            self.positions[e.0]
        } else {
            None
        }
    }

    /// Read an entity's velocity, as [`World::position`] does.
    pub fn velocity(&self, e: EntityId) -> (r: Option<Velocity>)
        ensures
            r == (if 0 <= e.0 < self.velocities@.len() {
                self.velocities@[e.0 as int]
            } else {
                None::<Velocity>
            }),
    {
        if e.0 < self.velocities.len() {
            self.velocities[e.0]
        } else {
            None
        }
    }

    /// Read an entity's acceleration, as [`World::position`] does.
    pub fn acceleration(&self, e: EntityId) -> (r: Option<Acceleration>)
        ensures
            r == (if 0 <= e.0 < self.accelerations@.len() {
                self.accelerations@[e.0 as int]
            } else {
                None::<Acceleration>
            }),
    {
        if e.0 < self.accelerations.len() {
            self.accelerations[e.0]
        } else {
            None
        }
    }

    /// Read an entity's mass, as [`World::position`] does.
    pub fn mass(&self, e: EntityId) -> (r: Option<Mass>)
        ensures
            r == (if 0 <= e.0 < self.masses@.len() {
                self.masses@[e.0 as int]
            } else {
                None::<Mass>
            }),
    {
        if e.0 < self.masses.len() {
            self.masses[e.0]
        } else {
            None
        }
    }

    /// Whether the entity carries the planet marker.
    pub fn is_planet(&self, e: EntityId) -> (r: bool)
        ensures
            r == (0 <= e.0 < self.planets@.len() && self.planets@[e.0 as int]),
    {
        e.0 < self.planets.len() && self.planets[e.0]
    }
}

/// Whether slot `i` is live and holds every requested component.
pub open spec fn joins(w: World, i: int, need_mass: bool, need_pos: bool, need_vel: bool, need_acc: bool) -> bool {
    &&& w.live(i)
    &&& (need_mass ==> w.masses@[i] is Some)
    &&& (need_pos ==> w.positions@[i] is Some)
    &&& (need_vel ==> w.velocities@[i] is Some)
    &&& (need_acc ==> w.accelerations@[i] is Some)
}

/// The joined entities among the first `k` slots, in slot order.
pub open spec fn join_upto(
    w: World,
    need_mass: bool,
    need_pos: bool,
    need_vel: bool,
    need_acc: bool,
    k: int,
) -> Seq<EntityId>
    decreases k,
{
    if k <= 0 {
        Seq::empty()
    } else {
        let rest = join_upto(w, need_mass, need_pos, need_vel, need_acc, k - 1);
        if joins(w, k - 1, need_mass, need_pos, need_vel, need_acc) {
            rest.push(EntityId((k - 1) as usize))
        } else {
            rest
        }
    }
}

impl World {
    /// The inner join on component presence: exactly the live entities that
    /// hold every requested component, in slot order, each listed once. An
    /// entity's acceleration can still be read as present-or-absent through
    /// [`World::acceleration`] without excluding it here.
    pub fn entities_with(
        &self,
        need_mass: bool,
        need_pos: bool,
        need_vel: bool,
        need_acc: bool,
    ) -> (r: Vec<EntityId>)
        requires
            self.wf(),
        ensures
            r@ == join_upto(*self, need_mass, need_pos, need_vel, need_acc, self.slots()),
    {
        let n = self.alive.len();
        let mut out: Vec<EntityId> = Vec::new();
        let mut i: usize = 0;
        while i < n
            invariant
                self.wf(),
                i <= n,
                n == self.slots(),
                out@ == join_upto(*self, need_mass, need_pos, need_vel, need_acc, i as int),
            decreases n - i,
        {
            let ok = self.alive[i] && (!need_mass || self.masses[i].is_some()) && (!need_pos
                || self.positions[i].is_some()) && (!need_vel || self.velocities[i].is_some())
                && (!need_acc || self.accelerations[i].is_some());
            if ok {
                out.push(EntityId(i));
            }
            i = i + 1;
        }
        out
    }
}

/// Runtime check matching [`position_ok`].
fn position_in_bounds(p: &Position) -> (r: bool)
    ensures
        r == position_ok(*p),
{
    let lim = crate::units::POS_LIMIT;
    -lim <= p.0.x && p.0.x <= lim && -lim <= p.0.y && p.0.y <= lim && -lim <= p.0.z && p.0.z
        <= lim
}

/// Runtime check matching [`velocity_ok`].
fn velocity_in_bounds(v: &Velocity) -> (r: bool)
    ensures
        r == velocity_ok(*v),
{
    let lim = crate::units::VEL_LIMIT;
    -lim <= v.0.x && v.0.x <= lim && -lim <= v.0.y && v.0.y <= lim && -lim <= v.0.z && v.0.z
        <= lim
}

/// Runtime check matching [`acceleration_ok`].
fn acceleration_in_bounds(a: &Acceleration) -> (r: bool)
    ensures
        r == acceleration_ok(*a),
{
    let lim = crate::units::ACC_LIMIT;
    -lim <= a.0.x && a.0.x <= lim && -lim <= a.0.y && a.0.y <= lim && -lim <= a.0.z && a.0.z
        <= lim
}

} // verus!
