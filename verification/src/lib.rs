//! A deterministic gravitational N-body simulator on fixed-point coordinates.
//!
//! A population of point masses ("planets") is created once by a seeded
//! scenario generator and then advanced one discrete tick at a time by
//! pairwise Newtonian attraction with a softening floor on the distance.
//! All quantities are held in fixed-point form: an `i64` counts millionths
//! of a world unit, so that every step is an exact, verified function of
//! the previous state.

pub mod generator;
pub mod integrator;
pub mod math;
pub mod model;

pub use generator::{generate, init_simulation, DEFAULT_COUNT, DEFAULT_SEED};
pub use integrator::{step, try_step, update_simulation};
pub use model::{Fixed2, Planet, PlanetSpec, Simulation, Vec2Spec};
pub use model::{GAMMA, MASS_LIMIT, MAX_BODIES, POS_LIMIT, SCALE};
