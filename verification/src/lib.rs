//! Verified core of a Lorenz-attractor animation: a fixed-step Euler
//! integrator over a fixed-point state space, an append-only trajectory
//! store, and the per-frame bounds/grid/polyline scene computation that
//! turns the trajectory into drawable geometry.
//!
//! Coordinates are carried as 64-bit integers in millionths of a unit
//! (fixed-point with scale `SCALE`), so that every arithmetic step has an
//! exact, machine-checkable meaning. A driver that owns a real drawing
//! surface converts these to its own number format at the edge.

pub mod model;
pub mod error;
pub mod integrator;
pub mod trajectory;
pub mod scene;
pub mod sim;
pub mod laws;

pub use crate::sim::Simulation;
pub use crate::trajectory::Trajectory;
pub use crate::scene::AxisBounds;
pub use crate::scene::SceneBounds;
pub use crate::scene::Segment;
pub use crate::scene::Scene;
pub use crate::model::State;
pub use crate::model::Params;
pub use crate::error::FrameError;
