use nbody::generator::SEED_STEP;
use nbody::{generate, init_simulation, DEFAULT_COUNT, DEFAULT_SEED, MASS_LIMIT, SCALE};

use turborand::rng::Rng;
use turborand::GenCore;
use turborand::SeededCore;

#[test]
fn generate_is_deterministic() {
    let a = generate(5, 5);
    let b = generate(5, 5);
    assert_eq!(a, b);
    let c = generate(100, 0xdead_beef);
    let d = generate(100, 0xdead_beef);
    assert_eq!(c, d);
}

#[test]
fn generate_zero_count_is_empty() {
    let sim = generate(0, 42);
    assert_eq!(sim.planets.len(), 0);
}

#[test]
fn generated_values_stay_in_range() {
    let sim = generate(1000, DEFAULT_SEED);
    assert_eq!(sim.planets.len(), 1000);
    for p in &sim.planets {
        assert!(p.position.x >= -400 * SCALE && p.position.x <= 400 * SCALE);
        assert!(p.position.y >= -400 * SCALE && p.position.y <= 400 * SCALE);
        assert!(p.mass >= 1000 * SCALE && p.mass <= 10000 * SCALE);
        assert!(p.mass <= MASS_LIMIT);
        assert_eq!(p.velocity.x, 0);
        assert_eq!(p.velocity.y, 0);
    }
}

#[test]
fn draws_follow_turborand() {
    // The same mapping the generator promises, applied to draws taken
    // straight from turborand: position x and y come from the first
    // two seeds of the stream, the mass from the fifth.
    let seed: u64 = 5;
    let s0 = seed;
    let s1 = s0.wrapping_add(SEED_STEP);
    let s4 = s1.wrapping_add(SEED_STEP).wrapping_add(SEED_STEP).wrapping_add(SEED_STEP);
    let d0 = Rng::with_seed(s0).gen_u64();
    let d1 = Rng::with_seed(s1).gen_u64();
    let d4 = Rng::with_seed(s4).gen_u64();
    let expected_x = (d0 % 800_000_001) as i64 - 400_000_000;
    let expected_y = (d1 % 800_000_001) as i64 - 400_000_000;
    let expected_m = ((d4 % 900_000_001) as i64 + 100_000_000) * 10;
    let sim = generate(1, seed);
    assert_eq!(sim.planets[0].position.x, expected_x);
    assert_eq!(sim.planets[0].position.y, expected_y);
    assert_eq!(sim.planets[0].mass, expected_m);
}

#[test]
fn different_seeds_differ() {
    let a = generate(5, 1);
    let b = generate(5, 2);
    assert_ne!(a, b);
}

#[test]
fn init_simulation_is_default_scenario() {
    let sim = init_simulation();
    assert_eq!(sim.planets.len(), DEFAULT_COUNT);
    assert_eq!(sim, generate(DEFAULT_COUNT, DEFAULT_SEED));
}
