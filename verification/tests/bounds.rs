use nbody::{generate, try_step, Fixed2, Planet, Simulation, MASS_LIMIT, POS_LIMIT, SCALE};

#[test]
fn try_step_accepts_generated_population() {
    let mut sim = generate(5, 5);
    let before = sim.clone();
    assert!(try_step(&mut sim));
    assert_ne!(sim, before);
}

#[test]
fn try_step_rejects_nonpositive_mass() {
    let planet = Planet {
        position: Fixed2 { x: 0, y: 0 },
        velocity: Fixed2 { x: 0, y: 0 },
        mass: 0,
    };
    let mut sim = Simulation { planets: vec![planet, planet] };
    let before = sim.clone();
    assert!(!try_step(&mut sim));
    assert_eq!(sim, before);
}

#[test]
fn try_step_rejects_out_of_range_position() {
    let far = Planet {
        position: Fixed2 { x: POS_LIMIT + 1, y: 0 },
        velocity: Fixed2 { x: 0, y: 0 },
        mass: 1000 * SCALE,
    };
    let mut sim = Simulation { planets: vec![far] };
    let before = sim.clone();
    assert!(!try_step(&mut sim));
    assert_eq!(sim, before);
}

#[test]
fn try_step_rejects_overweight_body() {
    let heavy = Planet {
        position: Fixed2 { x: 0, y: 0 },
        velocity: Fixed2 { x: 0, y: 0 },
        mass: MASS_LIMIT + 1,
    };
    let mut sim = Simulation { planets: vec![heavy] };
    assert!(!try_step(&mut sim));
}
