//! Populate the world with the solar system's bodies.
//!
//! Initial positions (micrometres), velocities (micrometres per second)
//! and masses (kilograms) of the sun and the eight planets, each started
//! on the x axis moving along z.

use vstd::prelude::*;
use crate::math::Vec3;
use crate::physics::{
    mass_ok, position_ok, velocity_ok, Acceleration, Mass, Planet, Position, Velocity,
};
use crate::units::ENTITY_LIMIT;
use crate::world::{EntityId, World};

verus! {

/// How many bodies the seeding creates.
pub const PLANET_COUNT: usize = 9;

/// Initial position of body `k`, micrometres along the x axis.
pub open spec fn planet_position(k: int) -> Vec3 {
    Vec3 { x: planet_distance(k), y: 0, z: 0 }
}

/// Distance of body `k` from the origin, micrometres.
pub open spec fn planet_distance(k: int) -> i64 {
    if k == 0 {
        0
    } else if k == 1 {
        57_909_000_000_000_000
    } else if k == 2 {
        108_209_000_000_000_000
    } else if k == 3 {
        149_596_000_000_000_000
    } else if k == 4 {
        227_923_000_000_000_000
    } else if k == 5 {
        778_570_000_000_000_000
    } else if k == 6 {
        1_433_529_000_000_000_000
    } else if k == 7 {
        2_872_463_000_000_000_000
    } else {
        4_495_060_000_000_000_000
    }
}

/// Initial velocity of body `k`, micrometres per second along the z axis.
pub open spec fn planet_velocity(k: int) -> Vec3 {
    Vec3 { x: 0, y: 0, z: planet_speed(k) }
}

/// Orbital speed of body `k`, micrometres per second.
pub open spec fn planet_speed(k: int) -> i64 {
    if k == 0 {
        0
    } else if k == 1 {
        47_360_000_000
    } else if k == 2 {
        35_020_000_000
    } else if k == 3 {
        29_780_000_000
    } else if k == 4 {
        24_070_000_000
    } else if k == 5 {
        13_000_000_000
    } else if k == 6 {
        9_680_000_000
    } else if k == 7 {
        6_800_000_000
    } else {
        5_430_000_000
    }
}

/// Mass of body `k`, kilograms.
pub open spec fn planet_mass(k: int) -> u128 {
    if k == 0 {
        1_989_000_000_000_000_000_000_000_000_000
    } else if k == 1 {
        330_110_000_000_000_000_000_000
    } else if k == 2 {
        4_867_500_000_000_000_000_000_000
    } else if k == 3 {
        5_972_400_000_000_000_000_000_000
    } else if k == 4 {
        641_710_000_000_000_000_000_000
    } else if k == 5 {
        1_898_190_000_000_000_000_000_000_000
    } else if k == 6 {
        568_340_000_000_000_000_000_000_000
    } else if k == 7 {
        86_813_000_000_000_000_000_000_000
    } else {
        102_413_000_000_000_000_000_000_000
    }
}

/// The slot `e` of `w` holds body `k`'s full component set.
pub open spec fn seeded_at(w: World, e: int, k: int) -> bool {
    &&& w.alive@[e]
    &&& w.planets@[e]
    &&& w.positions@[e] == Some(Position(planet_position(k)))
    &&& w.velocities@[e] == Some(Velocity(planet_velocity(k)))
    &&& w.accelerations@[e] == Some(Acceleration(Vec3 { x: 0, y: 0, z: 0 }))
    &&& w.masses@[e] == Some(Mass(planet_mass(k)))
}

/// Open one slot and attach the full component set of a body.
fn seed_body(w: &mut World, pos: Vec3, vel: Vec3, m: u128) -> (e: EntityId)
    requires
        old(w).wf(),
        old(w).slots() < ENTITY_LIMIT,
        position_ok(Position(pos)),
        velocity_ok(Velocity(vel)),
        mass_ok(Mass(m)),
    ensures
        final(w).wf(),
        e.0 == old(w).slots(),
        final(w).slots() == old(w).slots() + 1,
        final(w).alive@ == old(w).alive@.push(true),
        final(w).planets@ == old(w).planets@.push(true),
        final(w).positions@ == old(w).positions@.push(Some(Position(pos))),
        final(w).velocities@ == old(w).velocities@.push(Some(Velocity(vel))),
        final(w).accelerations@ == old(w).accelerations@.push(
            Some(Acceleration(Vec3 { x: 0, y: 0, z: 0 })),
        ),
        final(w).masses@ == old(w).masses@.push(Some(Mass(m))),
        final(w).same_but_tables(*old(w)),
{
    let ghost w0 = *w;
    let e = match w.create_entity() {
        Ok(e) => e,
        Err(_) => {
            proof {
                assert(false);
            }
            EntityId(0)
        },
    };
    let _ = w.attach_planet(e, Planet);
    let _ = w.attach_position(e, Position(pos));
    let _ = w.attach_velocity(e, Velocity(vel));
    let _ = w.attach_acceleration(e, Acceleration(Vec3 { x: 0, y: 0, z: 0 }));
    let _ = w.attach_mass(e, Mass(m));
    proof {
        assert(w.alive@ =~= w0.alive@.push(true));
        assert(w.planets@ =~= w0.planets@.push(true));
        assert(w.positions@ =~= w0.positions@.push(Some(Position(pos))));
        assert(w.velocities@ =~= w0.velocities@.push(Some(Velocity(vel))));
        assert(w.accelerations@ =~= w0.accelerations@.push(
            Some(Acceleration(Vec3 { x: 0, y: 0, z: 0 })),
        ));
        assert(w.masses@ =~= w0.masses@.push(Some(Mass(m))));
    }
    e
}

/// Populate the world with the nine bodies, in table order, each fully
/// equipped: marker, position, velocity, zero acceleration and mass.
pub fn build_planets(w: &mut World)
    requires
        old(w).wf(),
        old(w).slots() + PLANET_COUNT <= ENTITY_LIMIT,
    ensures
        final(w).wf(),
        final(w).slots() == old(w).slots() + PLANET_COUNT,
        forall|k: int|
            0 <= k < PLANET_COUNT ==> #[trigger] seeded_at(*final(w), old(w).slots() + k, k),
        forall|i: int|
            0 <= i < old(w).slots() ==> final(w).positions@[i] == old(w).positions@[i]
                && final(w).velocities@[i] == old(w).velocities@[i]
                && final(w).accelerations@[i] == old(w).accelerations@[i]
                && final(w).masses@[i] == old(w).masses@[i] && final(w).alive@[i]
                == old(w).alive@[i] && final(w).planets@[i] == old(w).planets@[i],
        final(w).same_but_tables(*old(w)),
{
    let base = w.slot_count();
    seed_body(
        w,
        Vec3 { x: 0, y: 0, z: 0 },
        Vec3 { x: 0, y: 0, z: 0 },
        1_989_000_000_000_000_000_000_000_000_000,
    );
    seed_body(
        w,
        Vec3 { x: 57_909_000_000_000_000, y: 0, z: 0 },
        Vec3 { x: 0, y: 0, z: 47_360_000_000 },
        330_110_000_000_000_000_000_000,
    );
    seed_body(
        w,
        Vec3 { x: 108_209_000_000_000_000, y: 0, z: 0 },
        Vec3 { x: 0, y: 0, z: 35_020_000_000 },
        4_867_500_000_000_000_000_000_000,
    );
    seed_body(
        w,
        Vec3 { x: 149_596_000_000_000_000, y: 0, z: 0 },
        Vec3 { x: 0, y: 0, z: 29_780_000_000 },
        5_972_400_000_000_000_000_000_000,
    );
    seed_body(
        w,
        Vec3 { x: 227_923_000_000_000_000, y: 0, z: 0 },
        Vec3 { x: 0, y: 0, z: 24_070_000_000 },
        641_710_000_000_000_000_000_000,
    );
    seed_body(
        w,
        Vec3 { x: 778_570_000_000_000_000, y: 0, z: 0 },
        Vec3 { x: 0, y: 0, z: 13_000_000_000 },
        1_898_190_000_000_000_000_000_000_000,
    );
    seed_body(
        w,
        Vec3 { x: 1_433_529_000_000_000_000, y: 0, z: 0 },
        Vec3 { x: 0, y: 0, z: 9_680_000_000 },
        568_340_000_000_000_000_000_000_000,
    );
    seed_body(
        w,
        Vec3 { x: 2_872_463_000_000_000_000, y: 0, z: 0 },
        Vec3 { x: 0, y: 0, z: 6_800_000_000 },
        86_813_000_000_000_000_000_000_000,
    );
    seed_body(
        w,
        Vec3 { x: 4_495_060_000_000_000_000, y: 0, z: 0 },
        Vec3 { x: 0, y: 0, z: 5_430_000_000 },
        102_413_000_000_000_000_000_000_000,
    );
}

} // verus!
