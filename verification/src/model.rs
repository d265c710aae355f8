//! The data model: fixed-point vectors, planets, and the population.
//!
//! Every scalar is an `i64` counting millionths of a world unit
//! (`SCALE` counts per unit), so the whole simulation state is made of
//! plain integers and each operation on it is an exact mathematical
//! function.

use vstd::prelude::*;

verus! {

/// Fixed-point scale: one world unit is `SCALE` counts.
pub const SCALE: i64 = 1_000_000;

/// Gravitational coefficient, 0.0006 world units in fixed-point form.
pub const GAMMA: i64 = 600;

/// Largest magnitude a coordinate may have at the start of a tick, in
/// fixed-point counts (400 million world units).  The bound keeps every
/// intermediate product of the force computation inside 128 bits.
pub const POS_LIMIT: i64 = 400_000_000_000_000;

/// Largest mass a body may have, in fixed-point counts (10 000 world
/// units of mass, the top of the generator's range).
pub const MASS_LIMIT: i64 = 10_000_000_000;

/// Most bodies a population may hold when it is stepped; it keeps the
/// accumulated velocity change of one body inside 128 bits.
pub const MAX_BODIES: usize = 4096;

/// Mathematical value of a 2-D fixed-point vector.
pub struct Vec2Spec {
    pub x: int,
    pub y: int,
}

/// Mathematical value of a body: position, velocity and mass as
/// unbounded integers (still in fixed-point counts).
pub struct PlanetSpec {
    pub pos: Vec2Spec,
    pub vel: Vec2Spec,
    pub mass: int,
}

/// A 2-D vector in fixed-point counts.
#[derive(Clone, Copy, PartialEq, Eq, Structural, Debug)]
pub struct Fixed2 {
    pub x: i64,
    pub y: i64,
}

/// A point mass: where it is, how it moves, and how heavy it is.
#[derive(Clone, Copy, PartialEq, Eq, Structural, Debug)]
pub struct Planet {
    pub position: Fixed2,
    pub velocity: Fixed2,
    pub mass: i64,
}

/// The ordered, fixed-length population of bodies.  A body's index is
/// its identity: the sequence is never reordered and nothing is added
/// or removed after creation.
#[derive(Clone, PartialEq, Debug)]
pub struct Simulation {
    pub planets: Vec<Planet>,
}

impl View for Fixed2 {
    type V = Vec2Spec;

    open spec fn view(&self) -> Vec2Spec {
        Vec2Spec { x: self.x as int, y: self.y as int }
    }
}

impl View for Planet {
    type V = PlanetSpec;

    open spec fn view(&self) -> PlanetSpec {
        PlanetSpec { pos: self.position@, vel: self.velocity@, mass: self.mass as int }
    }
}

/// The population a sequence of bodies stands for.
pub open spec fn pop_view(bodies: Seq<Planet>) -> Seq<PlanetSpec> {
    bodies.map_values(|p: Planet| p@)
}

impl View for Simulation {
    type V = Seq<PlanetSpec>;

    open spec fn view(&self) -> Seq<PlanetSpec> {
        pop_view(self.planets@)
    }
}

/// A body the integrator accepts: coordinates within `POS_LIMIT` and a
/// positive mass no larger than `MASS_LIMIT`.  A positive mass is the
/// simulator's one semantic precondition; the magnitude bounds are
/// machine limits of the 64-bit representation.
pub open spec fn body_in_bounds(p: PlanetSpec) -> bool {
    &&& -POS_LIMIT <= p.pos.x <= POS_LIMIT
    &&& -POS_LIMIT <= p.pos.y <= POS_LIMIT
    &&& 1 <= p.mass <= MASS_LIMIT
}

/// A population the integrator accepts for one tick.
pub open spec fn can_step(s: Seq<PlanetSpec>) -> bool {
    &&& s.len() <= MAX_BODIES
    &&& forall|i: int| 0 <= i < s.len() ==> body_in_bounds(#[trigger] s[i])
}

} // verus!
