//! Deductive core of a "Black Box"-style puzzle solver.
//!
//! Given a set of boundary laser observations around a square grid, the
//! solver infers, with logical certainty only, which grid cells are known
//! to contain an atom, known to be empty, or remain unknown.

pub mod geometry;
pub mod knowledge;
pub mod observation;
pub mod render;
pub mod solver;

pub use geometry::Direction;
pub use geometry::I8Vec2;
pub use geometry::LaserTip;
pub use geometry::GRID_SIZE;
pub use knowledge::GridKnowledge;
pub use knowledge::SolverError;
pub use knowledge::UncertainGrid;
pub use observation::Observation;
pub use observation::Observations;
pub use render::draw;
pub use solver::solve_as_much_as_you_can;
