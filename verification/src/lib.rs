//! Sequential line search: human-in-the-loop Bayesian optimization over a
//! bounded continuous parameter space.
//!
//! On each round the session presents a one-dimensional slider spanning two
//! points of the space; the user reports the best position on it. That single
//! report yields a pairwise preference (the chosen point beats both slider
//! endpoints), which is accumulated in a dataset, used to refit a surrogate
//! utility model, and finally turned into the next slider: one endpoint is the
//! current best-known point (exploitation), the other a point proposed by an
//! acquisition criterion (exploration).
//!
//! All quantities are fixed-point integers: a real value `x` is stored as the
//! `i64` holding `x * SCALE` (see [`fixed`]). Coordinates of the parameter
//! space live in `[0, SCALE]`, that is, in the real interval `[0, 1]` per
//! dimension.

pub mod fixed;
pub mod points;
pub mod rng;
pub mod kernel;
pub mod errors;
pub mod dataset;
pub mod regressor;
pub mod acquisition;
pub mod session;
pub mod laws;
