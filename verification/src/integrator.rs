//! The integrator: one discrete tick of pairwise Newtonian gravity with
//! a softening floor, advanced by semi-implicit Euler.
//!
//! For every ordered pair `(a, b)` the displacement `d = b.pos - a.pos`
//! gives a softened distance `rs = max(|d|, 1.0)` and a force on `a` of
//! `d * GAMMA * a.mass * b.mass / rs^2` (all in fixed-point counts).
//! Velocities absorb the mass-normalised impulses of every pair, then
//! each position moves by its fully updated velocity - the defining
//! order of semi-implicit Euler.  All divisions round the magnitude
//! down (truncation toward zero), and values are clamped symmetrically
//! into the 64-bit range when stored.

use vstd::arithmetic::div_mod::{
    lemma_div_basics, lemma_div_is_ordered, lemma_div_is_ordered_by_denominator,
    lemma_div_pos_is_pos,
};
use vstd::prelude::*;

use crate::math::{clamp_fix, clamp_to_fix, isqrt, sqrt_of};
use crate::model::{
    body_in_bounds, can_step, pop_view, Fixed2, Planet, PlanetSpec, Simulation, Vec2Spec, GAMMA,
    MASS_LIMIT, MAX_BODIES, POS_LIMIT, SCALE,
};

verus! {

/// No single pairwise velocity change exceeds this many counts; it
/// bounds the 128-bit accumulation over a whole population.
pub const DV_LIMIT: i128 = 50_000_000_000_000_000_000_000_000;

/// The absolute value of an integer.
pub open spec fn abs_val(x: int) -> int {
    if x < 0 {
        -x
    } else {
        x
    }
}

/// The softened distance between two bodies, in counts: the floor of
/// `|b.pos - a.pos|`, raised to at least `SCALE` (one world unit).
pub open spec fn softened_dist(a: PlanetSpec, b: PlanetSpec) -> int {
    let dx = b.pos.x - a.pos.x;
    let dy = b.pos.y - a.pos.y;
    let r = sqrt_of(dx * dx + dy * dy);
    if r < SCALE {
        SCALE as int
    } else {
        r
    }
}

/// One axis of the force on a body of mass `ma` whose displacement
/// toward its partner (mass `mb`) is `d` along this axis, at softened
/// distance `rs`: the magnitude `|d| * GAMMA * ma * mb / (rs^2 * SCALE)`
/// rounded down, signed toward the partner.
pub open spec fn force_on_axis(d: int, ma: int, mb: int, rs: int) -> int {
    let q = (abs_val(d) * GAMMA * ma * mb) / (rs * rs * SCALE);
    if d >= 0 {
        q
    } else {
        -q
    }
}

/// The velocity change a force `f` gives a body of mass `m` in one
/// tick: `f / m`, with the magnitude rounded down.
pub open spec fn dv_from_force(f: int, m: int) -> int {
    if f >= 0 {
        (f * SCALE) / m
    } else {
        -((-f * SCALE) / m)
    }
}

/// The x component of the force on `a` from `b`.
pub open spec fn force_on_x(a: PlanetSpec, b: PlanetSpec) -> int {
    force_on_axis(b.pos.x - a.pos.x, a.mass, b.mass, softened_dist(a, b))
}

/// The y component of the force on `a` from `b`.
pub open spec fn force_on_y(a: PlanetSpec, b: PlanetSpec) -> int {
    force_on_axis(b.pos.y - a.pos.y, a.mass, b.mass, softened_dist(a, b))
}

/// The x component of the velocity change `b` causes on `a` in one tick.
pub open spec fn dv_on_x(a: PlanetSpec, b: PlanetSpec) -> int {
    dv_from_force(force_on_x(a, b), a.mass)
}

/// The y component of the velocity change `b` causes on `a` in one tick.
pub open spec fn dv_on_y(a: PlanetSpec, b: PlanetSpec) -> int {
    dv_from_force(force_on_y(a, b), a.mass)
}

/// Sum of the x velocity changes on body `i` from partners of index
/// less than `k` (skipping `i` itself).
pub open spec fn sum_dv_x(s: Seq<PlanetSpec>, i: int, k: int) -> int
    decreases k,
{
    if k <= 0 {
        0
    } else {
        sum_dv_x(s, i, k - 1) + if k - 1 == i {
            0
        } else {
            dv_on_x(s[i], s[k - 1])
        }
    }
}

/// Sum of the y velocity changes on body `i` from partners of index
/// less than `k` (skipping `i` itself).
pub open spec fn sum_dv_y(s: Seq<PlanetSpec>, i: int, k: int) -> int
    decreases k,
{
    if k <= 0 {
        0
    } else {
        sum_dv_y(s, i, k - 1) + if k - 1 == i {
            0
        } else {
            dv_on_y(s[i], s[k - 1])
        }
    }
}

/// Body `i`'s velocity after the tick: the old velocity plus every
/// pairwise change, clamped into the 64-bit range.
pub open spec fn stepped_vel_x(s: Seq<PlanetSpec>, i: int) -> int {
    clamp_fix(s[i].vel.x + sum_dv_x(s, i, s.len() as int))
}

/// Body `i`'s velocity after the tick (y component).
pub open spec fn stepped_vel_y(s: Seq<PlanetSpec>, i: int) -> int {
    clamp_fix(s[i].vel.y + sum_dv_y(s, i, s.len() as int))
}

/// Body `i` after the tick: velocity updated first, then the position
/// moved by the new velocity; the mass is untouched.
pub open spec fn stepped_planet(s: Seq<PlanetSpec>, i: int) -> PlanetSpec {
    let vx = stepped_vel_x(s, i);
    let vy = stepped_vel_y(s, i);
    PlanetSpec {
        pos: Vec2Spec { x: clamp_fix(s[i].pos.x + vx), y: clamp_fix(s[i].pos.y + vy) },
        vel: Vec2Spec { x: vx, y: vy },
        mass: s[i].mass,
    }
}

/// The whole population after one tick, every pairwise force read
/// against the positions as they stood when the tick began.
pub open spec fn spec_step(s: Seq<PlanetSpec>) -> Seq<PlanetSpec> {
    Seq::new(s.len(), |i: int| stepped_planet(s, i))
}

/// The magnitude of the per-axis velocity change: the rounded force
/// magnitude `d_abs * GAMMA * ma * mb / den`, rescaled and divided by
/// the receiving mass, rounding down again.
pub open spec fn dv_mag(d_abs: int, ma: int, mb: int, den: int) -> int {
    ((d_abs * GAMMA * ma * mb) / den) * SCALE / ma
}

/// The signed, mass-normalised impulse along one axis, computed on
/// magnitudes with the displacement's sign applied at the end.
fn dv_axis(d_abs: u128, nonneg: bool, ma: u128, mb: u128, den: u128) -> (dv: i128)
    requires
        d_abs <= 800_000_000_000_000u128,
        1 <= ma <= MASS_LIMIT,
        1 <= mb <= MASS_LIMIT,
        1_000_000_000_000_000_000 <= den,
    ensures
        0 <= dv_mag(d_abs as int, ma as int, mb as int, den as int) <= DV_LIMIT,
        nonneg ==> dv as int == dv_mag(d_abs as int, ma as int, mb as int, den as int),
        !nonneg ==> dv as int == -dv_mag(d_abs as int, ma as int, mb as int, den as int),
{
    let t1: u128 = d_abs * 600u128;
    assert((t1 as int) * (ma as int) <= 4_800_000_000_000_000_000_000_000_000) by (nonlinear_arith)
        requires
            t1 <= 480_000_000_000_000_000u128,
            ma <= 10_000_000_000u128;
    let t2: u128 = t1 * ma;
    assert((t2 as int) * (mb as int) <= 48_000_000_000_000_000_000_000_000_000_000_000_000)
        by (nonlinear_arith)
        requires
            t2 <= 4_800_000_000_000_000_000_000_000_000u128,
            mb <= 10_000_000_000u128;
    let num: u128 = t2 * mb;
    let q: u128 = num / den;
    proof {
        lemma_div_is_ordered_by_denominator(num as int, 1_000_000_000_000_000_000, den as int);
        lemma_div_is_ordered(
            num as int,
            48_000_000_000_000_000_000_000_000_000_000_000_000,
            1_000_000_000_000_000_000,
        );
        assert(q <= 48_000_000_000_000_000_000u128);
    }
    let s: u128 = q * 1_000_000u128;
    let mag: u128 = s / ma;
    proof {
        lemma_div_pos_is_pos(s as int, ma as int);
        lemma_div_is_ordered_by_denominator(s as int, 1, ma as int);
        lemma_div_basics(s as int);
        assert(mag <= 48_000_000_000_000_000_000_000_000u128);
        assert(mag as int == dv_mag(d_abs as int, ma as int, mb as int, den as int));
    }
    if nonneg {
        mag as i128
    } else {
        -(mag as i128)
    }
}

/// The velocity change `b` causes on `a` in one tick, computed exactly
/// as the model states it.
fn dv_pair(a: &Planet, b: &Planet) -> (dv: (i128, i128))
    requires
        body_in_bounds(a@),
        body_in_bounds(b@),
    ensures
        dv.0 as int == dv_on_x(a@, b@),
        dv.1 as int == dv_on_y(a@, b@),
        -DV_LIMIT <= dv.0 <= DV_LIMIT,
        -DV_LIMIT <= dv.1 <= DV_LIMIT,
{
    let dx: i128 = b.position.x as i128 - a.position.x as i128;
    let dy: i128 = b.position.y as i128 - a.position.y as i128;
    let adx: u128 = if dx < 0 {
        (-dx) as u128
    } else {
        dx as u128
    };
    let ady: u128 = if dy < 0 {
        (-dy) as u128
    } else {
        dy as u128
    };
    assert(adx as int == abs_val(dx as int));
    assert(ady as int == abs_val(dy as int));
    assert(adx <= 800_000_000_000_000u128);
    assert(ady <= 800_000_000_000_000u128);
    assert((adx as int) * (adx as int) == (dx as int) * (dx as int)) by (nonlinear_arith)
        requires
            adx as int == abs_val(dx as int);
    assert((ady as int) * (ady as int) == (dy as int) * (dy as int)) by (nonlinear_arith)
        requires
            ady as int == abs_val(dy as int);
    assert((adx as int) * (adx as int) <= 640_000_000_000_000_000_000_000_000_000
        && (ady as int) * (ady as int) <= 640_000_000_000_000_000_000_000_000_000)
        by (nonlinear_arith)
        requires
            adx <= 800_000_000_000_000u128,
            ady <= 800_000_000_000_000u128;
    let d2: u128 = adx * adx + ady * ady;
    let r: u64 = isqrt(d2);
    assert(r <= 1_200_000_000_000_000u64) by (nonlinear_arith)
        requires
            (r as int) * (r as int) <= d2 as int,
            d2 <= 1_280_000_000_000_000_000_000_000_000_000u128;
    let rsoft: u128 = if (r as u128) < 1_000_000u128 {
        1_000_000u128
    } else {
        r as u128
    };
    let ghost rs = softened_dist(a@, b@);
    proof {
        assert(d2 as int == (b@.pos.x - a@.pos.x) * (b@.pos.x - a@.pos.x) + (b@.pos.y
            - a@.pos.y) * (b@.pos.y - a@.pos.y));
        assert(rsoft as int == rs);
    }
    assert((rsoft as int) * (rsoft as int) <= 1_440_000_000_000_000_000_000_000_000_000
        && (rsoft as int) * (rsoft as int) >= 1_000_000_000_000) by (nonlinear_arith)
        requires
            1_000_000u128 <= rsoft <= 1_200_000_000_000_000u128;
    let den: u128 = rsoft * rsoft * 1_000_000u128;
    assert(den as int == rs * rs * SCALE);
    let ma: u128 = a.mass as u128;
    let mb: u128 = b.mass as u128;
    let dvx: i128 = dv_axis(adx, dx >= 0, ma, mb, den);
    let dvy: i128 = dv_axis(ady, dy >= 0, ma, mb, den);
    proof {
        lemma_dv_axis_is_dv(dx as int, a@.mass, b@.mass, rs);
        lemma_dv_axis_is_dv(dy as int, a@.mass, b@.mass, rs);
    }
    (dvx, dvy)
}

/// The model's signed velocity change equals the magnitude-and-sign
/// form that `dv_axis` computes.
proof fn lemma_dv_axis_is_dv(d: int, ma: int, mb: int, rs: int)
    requires
        1 <= ma,
        1 <= mb,
        1 <= rs,
    ensures
        d >= 0 ==> dv_from_force(force_on_axis(d, ma, mb, rs), ma) == dv_mag(
            abs_val(d),
            ma,
            mb,
            rs * rs * SCALE,
        ),
        d < 0 ==> dv_from_force(force_on_axis(d, ma, mb, rs), ma) == -dv_mag(
            abs_val(d),
            ma,
            mb,
            rs * rs * SCALE,
        ),
        dv_mag(abs_val(d), ma, mb, rs * rs * SCALE) >= 0,
{
    let den = rs * rs * SCALE;
    vstd::arithmetic::mul::lemma_mul_strictly_positive(rs, rs);
    assert(den >= 1);
    let numq = abs_val(d) * GAMMA * ma * mb;
    vstd::arithmetic::mul::lemma_mul_nonnegative(abs_val(d) * GAMMA, ma);
    vstd::arithmetic::mul::lemma_mul_nonnegative(abs_val(d) * GAMMA * ma, mb);
    assert(numq >= 0);
    let q = numq / den;
    lemma_div_pos_is_pos(numq, den);
    assert(q >= 0);
    lemma_div_pos_is_pos(q * SCALE, ma);
    let mag = q * SCALE / ma;
    assert(mag >= 0);
    assert(dv_mag(abs_val(d), ma, mb, den) == mag);
    if d >= 0 {
        assert(force_on_axis(d, ma, mb, rs) == q);
        assert(dv_from_force(q, ma) == mag);
    } else {
        assert(force_on_axis(d, ma, mb, rs) == -q);
        if q == 0 {
            lemma_div_basics(ma);
            assert(dv_from_force(0, ma) == 0);
        } else {
            assert(dv_from_force(-q, ma) == -((q * SCALE) / ma));
        }
    }
}

/// One tick over a sequence of bodies: every pairwise velocity change
/// is accumulated against the starting positions, then each position
/// moves by its fully updated velocity.
fn step_bodies(bodies: &Vec<Planet>) -> (out: Vec<Planet>)
    requires
        can_step(pop_view(bodies@)),
    ensures
        pop_view(out@) == spec_step(pop_view(bodies@)),
{
    let ghost s0 = pop_view(bodies@);
    let n = bodies.len();
    let mut new_vels: Vec<Fixed2> = Vec::new();
    let mut i: usize = 0;
    while i < n
        invariant
            i <= n,
            n == bodies@.len(),
            s0 == pop_view(bodies@),
            can_step(s0),
            new_vels@.len() == i,
            forall|k: int|
                0 <= k < i ==> (#[trigger] new_vels@[k])@.x == stepped_vel_x(s0, k)
                    && new_vels@[k]@.y == stepped_vel_y(s0, k),
        decreases n - i,
    {
        let pi = bodies[i];
        assert(pi@ == s0[i as int]);
        let mut ax: i128 = 0;
        let mut ay: i128 = 0;
        let mut j: usize = 0;
        while j < n
            invariant
                j <= n,
                i < n,
                n == bodies@.len(),
                s0 == pop_view(bodies@),
                can_step(s0),
                pi@ == s0[i as int],
                ax as int == sum_dv_x(s0, i as int, j as int),
                ay as int == sum_dv_y(s0, i as int, j as int),
                -(j as int) * DV_LIMIT <= ax as int <= (j as int) * DV_LIMIT,
                -(j as int) * DV_LIMIT <= ay as int <= (j as int) * DV_LIMIT,
            decreases n - j,
        {
            if j != i {
                let pj = bodies[j];
                assert(pj@ == s0[j as int]);
                let dv = dv_pair(&pi, &pj);
                ax = ax + dv.0;
                ay = ay + dv.1;
            }
            j = j + 1;
        }
        let vx: i64 = clamp_to_fix(pi.velocity.x as i128 + ax);
        let vy: i64 = clamp_to_fix(pi.velocity.y as i128 + ay);
        assert(vx as int == stepped_vel_x(s0, i as int));
        assert(vy as int == stepped_vel_y(s0, i as int));
        new_vels.push(Fixed2 { x: vx, y: vy });
        i = i + 1;
    }
    let mut out: Vec<Planet> = Vec::new();
    let mut i2: usize = 0;
    while i2 < n
        invariant
            i2 <= n,
            n == bodies@.len(),
            s0 == pop_view(bodies@),
            can_step(s0),
            new_vels@.len() == n,
            forall|k: int|
                0 <= k < n ==> (#[trigger] new_vels@[k])@.x == stepped_vel_x(s0, k)
                    && new_vels@[k]@.y == stepped_vel_y(s0, k),
            out@.len() == i2,
            forall|k: int| 0 <= k < i2 ==> (#[trigger] out@[k])@ == stepped_planet(s0, k),
        decreases n - i2,
    {
        let p = bodies[i2];
        assert(p@ == s0[i2 as int]);
        let v = new_vels[i2];
        let px: i64 = clamp_to_fix(p.position.x as i128 + v.x as i128);
        let py: i64 = clamp_to_fix(p.position.y as i128 + v.y as i128);
        out.push(Planet { position: Fixed2 { x: px, y: py }, velocity: v, mass: p.mass });
        i2 = i2 + 1;
    }
    proof {
        assert(pop_view(out@) =~= spec_step(s0));
    }
    out
}

/// Advance the simulation by exactly one discrete tick.
pub fn step(sim: &mut Simulation)
    requires
        can_step(old(sim)@),
    ensures
        final(sim)@ == spec_step(old(sim)@),
{
    let new_planets = step_bodies(&sim.planets);
    sim.planets = new_planets;
}

/// Advance the simulation by one tick (the integrator's entry point
/// under its traditional name).
pub fn update_simulation(sim: &mut Simulation)
    requires
        can_step(old(sim)@),
    ensures
        final(sim)@ == spec_step(old(sim)@),
{
    step(sim)
}

/// Whether every body is inside the integrator's machine bounds.
fn bodies_in_bounds(bodies: &Vec<Planet>) -> (ok: bool)
    ensures
        ok == can_step(pop_view(bodies@)),
{
    let ghost s0 = pop_view(bodies@);
    let n = bodies.len();
    if n > MAX_BODIES {
        return false;
    }
    let mut i: usize = 0;
    while i < n
        invariant
            i <= n,
            n == bodies@.len(),
            n <= MAX_BODIES,
            s0 == pop_view(bodies@),
            forall|k: int| 0 <= k < i ==> body_in_bounds(#[trigger] s0[k]),
        decreases n - i,
    {
        let p = bodies[i];
        assert(p@ == s0[i as int]);
        if p.position.x < -POS_LIMIT || p.position.x > POS_LIMIT || p.position.y < -POS_LIMIT
            || p.position.y > POS_LIMIT || p.mass < 1 || p.mass > MASS_LIMIT {
            assert(!body_in_bounds(s0[i as int]));
            return false;
        }
        i = i + 1;
    }
    true
}

/// Advance by one tick if the population is within the integrator's
/// bounds; otherwise leave it untouched and say so.
pub fn try_step(sim: &mut Simulation) -> (ok: bool)
    ensures
        ok == can_step(old(sim)@),
        ok ==> final(sim)@ == spec_step(old(sim)@),
        !ok ==> *final(sim) == *old(sim),
{
    if bodies_in_bounds(&sim.planets) {
        step(sim);
        true
    } else {
        false
    }
}

/// A tick never changes any body's mass.
pub proof fn lemma_step_preserves_mass(s: Seq<PlanetSpec>, i: int)
    requires
        0 <= i < s.len(),
    ensures
        spec_step(s)[i].mass == s[i].mass,
{
}

/// The signed force along one axis flips exactly when the displacement
/// flips and the two masses swap roles.
proof fn lemma_force_axis_antisym(d: int, ma: int, mb: int, rs: int)
    requires
        1 <= rs,
        1 <= ma,
        1 <= mb,
    ensures
        force_on_axis(-d, mb, ma, rs) == -force_on_axis(d, ma, mb, rs),
{
    let den = rs * rs * SCALE;
    vstd::arithmetic::mul::lemma_mul_strictly_positive(rs, rs);
    assert(den >= 1);
    let ad = abs_val(d);
    assert(abs_val(-d) == ad);
    assert(((ad * GAMMA) * ma) * mb == ((ad * GAMMA) * mb) * ma) by (nonlinear_arith);
    if d == 0 {
        assert(ad == 0);
        assert(ad * GAMMA * ma * mb == 0) by (nonlinear_arith)
            requires
                ad == 0;
        lemma_div_basics(den);
        assert(force_on_axis(0, ma, mb, rs) == 0);
        assert(force_on_axis(0, mb, ma, rs) == 0);
    }
}

/// Newton's third law at the impulse level: the force `b` exerts on `a`
/// is the exact negation of the force `a` exerts on `b`.  The velocity
/// changes of the pair are these forces divided by each body's own
/// mass, with the magnitude rounded down.
pub proof fn lemma_pair_force_antisymmetric(a: PlanetSpec, b: PlanetSpec)
    requires
        1 <= a.mass,
        1 <= b.mass,
    ensures
        force_on_x(a, b) == -force_on_x(b, a),
        force_on_y(a, b) == -force_on_y(b, a),
{
    assert((b.pos.x - a.pos.x) * (b.pos.x - a.pos.x) == (a.pos.x - b.pos.x) * (a.pos.x
        - b.pos.x)) by (nonlinear_arith);
    assert((b.pos.y - a.pos.y) * (b.pos.y - a.pos.y) == (a.pos.y - b.pos.y) * (a.pos.y
        - b.pos.y)) by (nonlinear_arith);
    assert(softened_dist(a, b) == softened_dist(b, a));
    let rs = softened_dist(a, b);
    assert(rs >= SCALE);
    lemma_force_axis_antisym(b.pos.x - a.pos.x, a.mass, b.mass, rs);
    lemma_force_axis_antisym(b.pos.y - a.pos.y, a.mass, b.mass, rs);
}

/// `dv_from_force` is odd in the force: an opposite force gives the
/// exactly opposite velocity change.
proof fn lemma_dv_from_force_odd(f: int, m: int)
    requires
        1 <= m,
    ensures
        dv_from_force(-f, m) == -dv_from_force(f, m),
{
    if f == 0 {
        lemma_div_basics(m);
    }
}

/// For two bodies of equal mass, the velocity change applied to one is
/// the exact negation of the velocity change applied to the other.
pub proof fn lemma_equal_mass_dv_antisymmetric(a: PlanetSpec, b: PlanetSpec)
    requires
        a.mass == b.mass,
        1 <= a.mass,
    ensures
        dv_on_x(a, b) == -dv_on_x(b, a),
        dv_on_y(a, b) == -dv_on_y(b, a),
{
    lemma_pair_force_antisymmetric(a, b);
    lemma_dv_from_force_odd(force_on_x(b, a), a.mass);
    lemma_dv_from_force_odd(force_on_y(b, a), a.mass);
}

/// The remainder left when one axis of an exchanged impulse is divided
/// by the two masses in turn: scaling each body's velocity change back
/// by its own mass recovers the shared impulse up to less than one
/// count per unit of mass.
proof fn lemma_axis_momentum(f: int, ma: int, mb: int)
    requires
        1 <= ma,
        1 <= mb,
    ensures
        abs_val(ma * dv_from_force(f, ma) + mb * dv_from_force(-f, mb)) < ma + mb,
{
    if f == 0 {
        lemma_div_basics(ma);
        lemma_div_basics(mb);
        assert(dv_from_force(0, ma) == 0);
        assert(dv_from_force(0, mb) == 0);
        vstd::arithmetic::mul::lemma_mul_basics(ma);
        vstd::arithmetic::mul::lemma_mul_basics(mb);
    } else if f > 0 {
        let g = f * SCALE;
        assert(dv_from_force(f, ma) == g / ma);
        assert(dv_from_force(-f, mb) == -(g / mb));
        vstd::arithmetic::div_mod::lemma_fundamental_div_mod(g, ma);
        vstd::arithmetic::div_mod::lemma_mod_bound(g, ma);
        vstd::arithmetic::div_mod::lemma_fundamental_div_mod(g, mb);
        vstd::arithmetic::div_mod::lemma_mod_bound(g, mb);
        vstd::arithmetic::mul::lemma_mul_unary_negation(mb, g / mb);
        assert(ma * (g / ma) + mb * (-(g / mb)) == (g % mb) - (g % ma));
    } else {
        let h = -f * SCALE;
        assert(dv_from_force(f, ma) == -(h / ma));
        assert(dv_from_force(-f, mb) == h / mb);
        vstd::arithmetic::div_mod::lemma_fundamental_div_mod(h, ma);
        vstd::arithmetic::div_mod::lemma_mod_bound(h, ma);
        vstd::arithmetic::div_mod::lemma_fundamental_div_mod(h, mb);
        vstd::arithmetic::div_mod::lemma_mod_bound(h, mb);
        vstd::arithmetic::mul::lemma_mul_unary_negation(ma, h / ma);
        assert(ma * (-(h / ma)) + mb * (h / mb) == (h % ma) - (h % mb));
    }
}

/// Newton's third law for the applied velocity changes, whatever the
/// masses: each change scaled back by its own mass recovers the shared
/// pair impulse, so the two scaled changes cancel up to the division
/// remainders, which are smaller than the masses themselves.
pub proof fn lemma_momentum_exchange_bounded(a: PlanetSpec, b: PlanetSpec)
    requires
        1 <= a.mass,
        1 <= b.mass,
    ensures
        abs_val(a.mass * dv_on_x(a, b) + b.mass * dv_on_x(b, a)) < a.mass + b.mass,
        abs_val(a.mass * dv_on_y(a, b) + b.mass * dv_on_y(b, a)) < a.mass + b.mass,
{
    lemma_pair_force_antisymmetric(a, b);
    lemma_axis_momentum(force_on_x(a, b), a.mass, b.mass);
    lemma_axis_momentum(force_on_y(a, b), a.mass, b.mass);
}

/// The softening floor: two bodies at the same position have softened
/// distance exactly one world unit (`SCALE` counts), so the force
/// computation divides by a positive quantity instead of failing; the
/// zero displacement then makes the force vector itself zero.
pub proof fn lemma_softening_floor(a: PlanetSpec, b: PlanetSpec)
    requires
        a.pos == b.pos,
        1 <= a.mass,
        1 <= b.mass,
    ensures
        softened_dist(a, b) == SCALE,
        force_on_x(a, b) == 0,
        force_on_y(a, b) == 0,
{
    crate::math::lemma_sqrt_is(0, 0);
    assert(softened_dist(a, b) == SCALE);
    let rs = softened_dist(a, b);
    let den = rs * rs * SCALE;
    vstd::arithmetic::mul::lemma_mul_strictly_positive(rs, rs);
    assert(den >= 1);
    assert(abs_val(0) * GAMMA * a.mass * b.mass == 0) by (nonlinear_arith);
    lemma_div_basics(den);
    assert(force_on_axis(0, a.mass, b.mass, rs) == 0);
}

/// A population of zero or one resting bodies is a fixed point of the
/// tick: with no pairs there is no force, and with zero velocity the
/// position does not move.  (A single body that already has velocity
/// keeps drifting by it.)
pub proof fn lemma_small_population_is_fixed(s: Seq<PlanetSpec>)
    requires
        can_step(s),
        s.len() <= 1,
        forall|i: int| 0 <= i < s.len() ==> (#[trigger] s[i]).vel.x == 0 && s[i].vel.y == 0,
    ensures
        spec_step(s) == s,
{
    if s.len() == 0 {
        assert(spec_step(s) =~= s);
    } else {
        assert(sum_dv_x(s, 0, 0) == 0);
        assert(sum_dv_y(s, 0, 0) == 0);
        assert(sum_dv_x(s, 0, 1) == 0);
        assert(sum_dv_y(s, 0, 1) == 0);
        assert(body_in_bounds(s[0]));
        assert(stepped_planet(s, 0) == s[0]);
        assert(spec_step(s) =~= s);
    }
}

} // verus!
