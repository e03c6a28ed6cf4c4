//! Streaming weighted-reservoir resampling with exact rational bookkeeping.
//!
//! The estimator state of a reservoir (weight sums, target densities,
//! contribution weights) is kept as exact non-negative rational numbers,
//! so every bookkeeping identity of the resampling algebra is proved
//! rather than approximated.

pub mod laws;
pub mod pipeline;
pub mod ratio;
pub mod reservoir;
pub mod rng;
pub mod store;

pub use ratio::Ratio;
pub use reservoir::Reservoir;
pub use reservoir::ReservoirBuilder;
