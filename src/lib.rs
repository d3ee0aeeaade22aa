//! Control logic of explicit Runge-Kutta integrators for vector ODEs.
//!
//! The numeric work of a step (stage evaluations, vector combinations, error
//! norms, comparisons of reals) is supplied by the caller as closures; this
//! crate decides which steps are taken, which samples are recorded, how the
//! step size is bounded and when a run stops, and proves those decisions
//! against their contracts.
pub mod error;
pub mod series;
pub mod fixed_step;
pub mod adaptive;
pub mod initial;
