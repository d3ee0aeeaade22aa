use vstd::prelude::*;

verus! {

/// Why an integration run was refused or abandoned.
#[derive(Clone, Copy, Debug, PartialEq, Eq, Structural)]
pub enum IntegrationError {
    /// A fixed-step run was asked for zero intervals.
    ZeroIntervals,
    /// A step produced a state whose length differs from the initial state.
    DimensionMismatch,
    /// The step-size controller produced a step of zero.
    DegenerateStep,
    /// The adaptive run used up its iteration budget before reaching the end time.
    IterationLimit,
}

} // verus!
