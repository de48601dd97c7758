//! Fixed-step explicit time integration for systems of independent entities.
//!
//! Every entity holds a small state and reports its time derivative; one step
//! advances the states of all entities with a selectable scheme (Euler, Heun,
//! midpoint, classical Runge-Kutta). The physics that turns states into
//! derivatives is a function value handed to the integrator.
//!
//! - [`algebra`]: what scalars and states must be able to do, and the laws
//!   they obey; [`exact`] makes `i64` a scalar, and [`joint`] holds a state
//!   and an entity built on any scalar.
//! - [`stateful`]: what an entity must offer to take part.
//! - [`state_map`]: collections of states by entity, with their arithmetic.
//! - [`world`]: the entities themselves; staging states on them and
//!   gathering what they hold and report.
//! - [`solver`]: the schemes and their formulas.
//! - [`integrator`]: derivative evaluation, the schemes at work, and the
//!   orchestration of one step.
//! - [`laws`]: what holds of the arithmetic and of every step.
//! - [`recorder`]: the statements that record a time series in a table.

pub mod algebra;
pub mod error;
pub mod exact;
pub mod integrator;
pub mod joint;
pub mod laws;
pub mod recorder;
pub mod solver;
pub mod state_map;
pub mod stateful;
pub mod world;

pub use algebra::{Scalar, State};
pub use error::{IntegratorError, Operation};
pub use integrator::PhysicsState;
pub use joint::{Joint, JointState};
pub use solver::Solver;
pub use state_map::StateMap;
pub use stateful::Stateful;
pub use world::World;
