use nbody::{generate, update_simulation, Fixed2, Planet, Simulation, SCALE};

fn body(px: i64, py: i64, vx: i64, vy: i64, mass: i64) -> Planet {
    Planet {
        position: Fixed2 { x: px, y: py },
        velocity: Fixed2 { x: vx, y: vy },
        mass,
    }
}

#[test]
fn two_body_attraction_scenario() {
    // Two bodies of mass 1000 at (-50, 0) and (50, 0), both at rest:
    // with r = 100 the pair force is 0.0006 * 1000 * 1000 / 100 * 1 = 6,
    // so each velocity becomes 0.006 toward the other and each position
    // moves by it, all exact in fixed-point counts.
    let mut sim = Simulation {
        planets: vec![
            body(-50 * SCALE, 0, 0, 0, 1000 * SCALE),
            body(50 * SCALE, 0, 0, 0, 1000 * SCALE),
        ],
    };
    update_simulation(&mut sim);
    assert_eq!(sim.planets[0].velocity, Fixed2 { x: 6000, y: 0 });
    assert_eq!(sim.planets[1].velocity, Fixed2 { x: -6000, y: 0 });
    assert_eq!(sim.planets[0].position, Fixed2 { x: -49_994_000, y: 0 });
    assert_eq!(sim.planets[1].position, Fixed2 { x: 49_994_000, y: 0 });
    assert_eq!(sim.planets[0].mass, 1000 * SCALE);
    assert_eq!(sim.planets[1].mass, 1000 * SCALE);
}

#[test]
fn step_preserves_masses() {
    let mut sim = generate(5, 5);
    let masses: Vec<i64> = sim.planets.iter().map(|p| p.mass).collect();
    for _ in 0..10 {
        update_simulation(&mut sim);
    }
    let after: Vec<i64> = sim.planets.iter().map(|p| p.mass).collect();
    assert_eq!(masses, after);
}

#[test]
fn equal_mass_velocity_changes_are_opposite() {
    let mut sim = Simulation {
        planets: vec![
            body(-3 * SCALE, 7 * SCALE, 0, 0, 2500 * SCALE),
            body(41 * SCALE, -11 * SCALE, 0, 0, 2500 * SCALE),
        ],
    };
    update_simulation(&mut sim);
    assert_eq!(sim.planets[0].velocity.x, -sim.planets[1].velocity.x);
    assert_eq!(sim.planets[0].velocity.y, -sim.planets[1].velocity.y);
    assert!(sim.planets[0].velocity.x != 0 || sim.planets[0].velocity.y != 0);
}

#[test]
fn unequal_mass_momentum_exchange_balances() {
    // Scaling each velocity change back by its own mass recovers the
    // shared impulse up to division remainders below the masses.
    let m0: i64 = 1000 * SCALE;
    let m1: i64 = 3700 * SCALE;
    let mut sim = Simulation {
        planets: vec![body(-50 * SCALE, 20 * SCALE, 0, 0, m0), body(50 * SCALE, -5 * SCALE, 0, 0, m1)],
    };
    update_simulation(&mut sim);
    let px = m0 as i128 * sim.planets[0].velocity.x as i128
        + m1 as i128 * sim.planets[1].velocity.x as i128;
    let py = m0 as i128 * sim.planets[0].velocity.y as i128
        + m1 as i128 * sim.planets[1].velocity.y as i128;
    assert!(px.abs() < (m0 + m1) as i128);
    assert!(py.abs() < (m0 + m1) as i128);
    assert!(sim.planets[0].velocity.x > 0 && sim.planets[1].velocity.x < 0);
}

#[test]
fn coincident_bodies_use_softening_floor() {
    // r_raw = 0 is floored to one world unit, so the computation stays
    // finite; the zero displacement leaves the force vector zero.
    let mut sim = Simulation {
        planets: vec![
            body(10 * SCALE, 10 * SCALE, 0, 0, 5000 * SCALE),
            body(10 * SCALE, 10 * SCALE, 0, 0, 5000 * SCALE),
        ],
    };
    update_simulation(&mut sim);
    assert_eq!(sim.planets[0].velocity, Fixed2 { x: 0, y: 0 });
    assert_eq!(sim.planets[1].velocity, Fixed2 { x: 0, y: 0 });
    assert_eq!(sim.planets[0].position, Fixed2 { x: 10 * SCALE, y: 10 * SCALE });
    assert_eq!(sim.planets[1].position, Fixed2 { x: 10 * SCALE, y: 10 * SCALE });
}

#[test]
fn near_coincident_bodies_feel_softened_force() {
    // A tiny but nonzero separation still yields a finite, nonzero
    // pull thanks to the floored distance.
    let mut sim = Simulation {
        planets: vec![
            body(0, 0, 0, 0, 10000 * SCALE),
            body(SCALE / 100, 0, 0, 0, 10000 * SCALE),
        ],
    };
    update_simulation(&mut sim);
    assert!(sim.planets[0].velocity.x > 0);
    assert!(sim.planets[1].velocity.x < 0);
}

#[test]
fn empty_population_is_unchanged() {
    let mut sim = Simulation { planets: vec![] };
    update_simulation(&mut sim);
    assert_eq!(sim.planets.len(), 0);
}

#[test]
fn resting_singleton_is_unchanged() {
    let mut sim = Simulation { planets: vec![body(7 * SCALE, -9 * SCALE, 0, 0, 1234 * SCALE)] };
    update_simulation(&mut sim);
    assert_eq!(sim.planets[0], body(7 * SCALE, -9 * SCALE, 0, 0, 1234 * SCALE));
}

#[test]
fn moving_singleton_drifts_by_its_velocity() {
    // With no pairs there is no force, but the position still moves by
    // the velocity, as in any tick.
    let mut sim = Simulation { planets: vec![body(0, 0, 3000, -500, 1000 * SCALE)] };
    update_simulation(&mut sim);
    assert_eq!(sim.planets[0].position, Fixed2 { x: 3000, y: -500 });
    assert_eq!(sim.planets[0].velocity, Fixed2 { x: 3000, y: -500 });
}
