//! The scenario generator: a seeded, deterministic initial population.
//!
//! Each body consumes five pseudo-random draws, in order: position x,
//! position y, two draws for a direction that the configured initial
//! speed of zero nulls out (still consumed, so later draws keep their
//! place in the stream), and mass.  Positions are uniform over
//! `[-400, 400]` world units; masses over `[100, 1000]`, then scaled
//! by ten to `[1000, 10000]`.
//!
//! The draws come from a freshly reseeded wyrand generator per draw,
//! with the verified code advancing the seed by a fixed odd constant
//! between draws, so that the whole population is a mathematical
//! function of `(count, seed)`.

use vstd::prelude::*;

use turborand::rng::Rng;
use turborand::SeededCore;
use turborand::GenCore;

use crate::model::{
    body_in_bounds, can_step, Fixed2, Planet, PlanetSpec, Simulation, Vec2Spec, MAX_BODIES,
};

verus! {

/// How the draw seed advances between draws (an odd constant, the same
/// increment the wyrand state update uses).
pub const SEED_STEP: u64 = 0xa076_1d64_78bd_642f;

/// How many bodies the reference configuration creates.
pub const DEFAULT_COUNT: usize = 5;

/// The seed the reference configuration generates from.
pub const DEFAULT_SEED: u64 = 5;

/// The value a freshly seeded wyrand generator returns for a given
/// seed: a fixed function of the seed alone, the same in every process
/// and on every machine.
pub uninterp spec fn wyrand_out(seed: u64) -> u64;

/// Relies on `turborand::rng::Rng`: `Rng::with_seed(s)` stores the
/// state `s << 1 | 1` and `gen_u64` advances it by a fixed constant and
/// mixes it, so the first draw of a freshly seeded generator is a
/// function of the seed alone.
#[verifier::external_body]
fn wyrand_draw(seed: u64) -> (r: u64)
    ensures
        r == wyrand_out(seed),
{
    let rng = Rng::with_seed(seed);
    rng.gen_u64()
}

/// The seed the `k`-th draw of a stream uses: the starting seed moved
/// `k` times by `SEED_STEP`, wrapping modulo 2^64.
pub open spec fn seed_at(seed: u64, k: nat) -> u64
    decreases k,
{
    if k == 0 {
        seed
    } else {
        vstd::wrapping::u64_specs::wrapping_add(seed_at(seed, (k - 1) as nat), SEED_STEP)
    }
}

/// The `k`-th draw of the stream that starts at `seed`.
pub open spec fn draw_at(seed: u64, k: nat) -> u64 {
    wyrand_out(seed_at(seed, k))
}

/// A draw mapped to a coordinate: uniform over `[-400, 400]` world
/// units, i.e. `[-400 * SCALE, 400 * SCALE]` counts.
pub open spec fn coord_from_draw(d: u64) -> int {
    (d % 800_000_001) - 400_000_000
}

/// A draw mapped to a mass: uniform over `[100, 1000]` world units,
/// then scaled by ten, i.e. `[1000 * SCALE, 10000 * SCALE]` counts.
pub open spec fn mass_from_draw(d: u64) -> int {
    ((d % 900_000_001) + 100_000_000) * 10
}

/// The `k`-th generated body.  Draws `5k` and `5k + 1` give the
/// position; draws `5k + 2` and `5k + 3` are the direction that the
/// zero initial speed nulls (consumed but without effect); draw
/// `5k + 4` gives the mass.
pub open spec fn gen_planet(seed: u64, k: nat) -> PlanetSpec {
    PlanetSpec {
        pos: Vec2Spec {
            x: coord_from_draw(draw_at(seed, 5 * k)),
            y: coord_from_draw(draw_at(seed, 5 * k + 1)),
        },
        vel: Vec2Spec { x: 0, y: 0 },
        mass: mass_from_draw(draw_at(seed, 5 * k + 4)),
    }
}

/// The whole generated population: a function of `(count, seed)` alone.
pub open spec fn spec_generate(count: nat, seed: u64) -> Seq<PlanetSpec> {
    Seq::new(count, |i: int| gen_planet(seed, i as nat))
}

/// Move the draw seed to the next position of the stream.
fn advance_seed(seed: u64) -> (r: u64)
    ensures
        r == vstd::wrapping::u64_specs::wrapping_add(seed, SEED_STEP),
{
    seed.wrapping_add(SEED_STEP)
}

/// Map a draw to a coordinate in `[-400 * SCALE, 400 * SCALE]` counts.
fn coord_of(d: u64) -> (c: i64)
    ensures
        c as int == coord_from_draw(d),
        -400_000_000 <= c <= 400_000_000,
{
    (d % 800_000_001) as i64 - 400_000_000
}

/// Map a draw to a mass in `[1000 * SCALE, 10000 * SCALE]` counts.
fn mass_of(d: u64) -> (m: i64)
    ensures
        m as int == mass_from_draw(d),
        1_000_000_000 <= m <= 10_000_000_000,
{
    ((d % 900_000_001) as i64 + 100_000_000) * 10
}

/// Every generated body has coordinates within 400 world units of the
/// origin, zero velocity, and a mass between 1000 and 10000 world
/// units: in particular it is inside the integrator's bounds.
pub proof fn lemma_generated_body_ranges(seed: u64, k: nat)
    ensures
        -400_000_000 <= gen_planet(seed, k).pos.x <= 400_000_000,
        -400_000_000 <= gen_planet(seed, k).pos.y <= 400_000_000,
        gen_planet(seed, k).vel.x == 0,
        gen_planet(seed, k).vel.y == 0,
        1_000_000_000 <= gen_planet(seed, k).mass <= 10_000_000_000,
        body_in_bounds(gen_planet(seed, k)),
{
}

/// Every body of a generated population lies in the generator's
/// documented ranges: positions within `[-400, 400]` world units on
/// each axis and masses within `[1000, 10000]` world units.
pub proof fn lemma_generate_ranges(count: nat, seed: u64)
    ensures
        forall|i: int|
            0 <= i < count ==> {
                let p = #[trigger] spec_generate(count, seed)[i];
                -400_000_000 <= p.pos.x <= 400_000_000 && -400_000_000 <= p.pos.y
                    <= 400_000_000 && 1_000_000_000 <= p.mass <= 10_000_000_000 && p.vel.x == 0
                    && p.vel.y == 0
            },
{
    assert forall|i: int| 0 <= i < count implies {
        let p = #[trigger] spec_generate(count, seed)[i];
        -400_000_000 <= p.pos.x <= 400_000_000 && -400_000_000 <= p.pos.y <= 400_000_000
            && 1_000_000_000 <= p.mass <= 10_000_000_000 && p.vel.x == 0 && p.vel.y == 0
    } by {
        lemma_generated_body_ranges(seed, i as nat);
    }
}

/// A generated population of at most `MAX_BODIES` bodies is ready for
/// the integrator.
pub proof fn lemma_generate_can_step(count: nat, seed: u64)
    requires
        count <= MAX_BODIES,
    ensures
        can_step(spec_generate(count, seed)),
{
    assert forall|i: int| 0 <= i < count implies body_in_bounds(
        #[trigger] spec_generate(count, seed)[i],
    ) by {
        lemma_generated_body_ranges(seed, i as nat);
    }
}

/// Generation is deterministic: two populations generated with the
/// same count and seed are equal, because each one is pinned to the
/// same mathematical function of those arguments.
pub proof fn lemma_generate_deterministic(
    p: Seq<PlanetSpec>,
    q: Seq<PlanetSpec>,
    count: nat,
    seed: u64,
)
    requires
        p == spec_generate(count, seed),
        q == spec_generate(count, seed),
    ensures
        p == q,
{
}

/// Build the initial population: `count` bodies drawn from the seeded
/// stream, each one exactly `gen_planet` of its index.
pub fn generate(count: usize, seed: u64) -> (sim: Simulation)
    ensures
        sim@ == spec_generate(count as nat, seed),
        sim.planets@.len() == count,
{
    let mut planets: Vec<Planet> = Vec::new();
    let mut s: u64 = seed;
    let mut i: usize = 0;
    while i < count
        invariant
            i <= count,
            planets@.len() == i,
            s == seed_at(seed, 5 * i as nat),
            forall|k: int| 0 <= k < i ==> (#[trigger] planets@[k])@ == gen_planet(seed, k as nat),
        decreases count - i,
    {
        let dx = wyrand_draw(s);
        s = advance_seed(s);
        let dy = wyrand_draw(s);
        s = advance_seed(s);
        // Two direction draws: the configured initial speed of zero
        // nulls their effect, but they are consumed so that the mass
        // draw keeps its place in the stream.
        let _ = wyrand_draw(s);
        s = advance_seed(s);
        let _ = wyrand_draw(s);
        s = advance_seed(s);
        let dm = wyrand_draw(s);
        s = advance_seed(s);
        proof {
            assert(seed_at(seed, 5 * i as nat + 1) == vstd::wrapping::u64_specs::wrapping_add(
                seed_at(seed, 5 * i as nat),
                SEED_STEP,
            ));
            assert(seed_at(seed, 5 * i as nat + 2) == vstd::wrapping::u64_specs::wrapping_add(
                seed_at(seed, 5 * i as nat + 1),
                SEED_STEP,
            ));
            assert(seed_at(seed, 5 * i as nat + 3) == vstd::wrapping::u64_specs::wrapping_add(
                seed_at(seed, 5 * i as nat + 2),
                SEED_STEP,
            ));
            assert(seed_at(seed, 5 * i as nat + 4) == vstd::wrapping::u64_specs::wrapping_add(
                seed_at(seed, 5 * i as nat + 3),
                SEED_STEP,
            ));
            assert(seed_at(seed, 5 * i as nat + 5) == vstd::wrapping::u64_specs::wrapping_add(
                seed_at(seed, 5 * i as nat + 4),
                SEED_STEP,
            ));
            assert(5 * (i + 1) as nat == 5 * i as nat + 5);
        }
        let px = coord_of(dx);
        let py = coord_of(dy);
        let m = mass_of(dm);
        let p = Planet {
            position: Fixed2 { x: px, y: py },
            velocity: Fixed2 { x: 0, y: 0 },
            mass: m,
        };
        assert(p@ == gen_planet(seed, i as nat));
        planets.push(p);
        i = i + 1;
    }
    let sim = Simulation { planets };
    proof {
        assert(sim@ =~= spec_generate(count as nat, seed));
    }
    sim
}

/// Build the reference scenario: five bodies from the default seed.
pub fn init_simulation() -> (sim: Simulation)
    ensures
        sim@ == spec_generate(DEFAULT_COUNT as nat, DEFAULT_SEED),
        can_step(sim@),
{
    proof {
        lemma_generate_can_step(DEFAULT_COUNT as nat, DEFAULT_SEED);
    }
    generate(DEFAULT_COUNT, DEFAULT_SEED)
}

} // verus!
