//! Error and status kinds of the optimization engine.

use vstd::prelude::*;

verus! {

/// Hard failures: the call is rejected and the session state is unchanged.
#[derive(Clone, Copy, PartialEq, Eq, Structural, Debug)]
pub enum SlsError {
    /// A supplied point's length differs from the session dimension.
    DimensionMismatch,
    /// A slider value outside the unit interval.
    OutOfRangeInput,
    /// The current best point was read before any round completed.
    UndefinedBestPoint,
}

/// Outcome of one regression refit. The failing outcomes are warnings: the
/// session keeps the previous regressor state but stays usable.
#[derive(Clone, Copy, PartialEq, Eq, Structural, Debug)]
pub enum FitStatus {
    /// The latent utilities reached a fixed point and the weight solve met
    /// its residual tolerance.
    Converged,
    /// The latent-utility optimization did not reach a fixed point within
    /// its iteration budget.
    RegressionDidNotConverge,
    /// No candidate hyperparameters and no jitter level up to the ceiling
    /// made the regularized Gram system solvable within tolerance.
    IllConditionedCovariance,
}

} // verus!
