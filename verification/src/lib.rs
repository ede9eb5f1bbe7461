//! An automated market maker whose quoted price is a smoothed, bounded
//! function of pool imbalance, together with a Monte Carlo harness that
//! drives it under random or rule-based trading pressure.
//!
//! All arithmetic runs on a fixed-point decimal type of the crate's own,
//! so every balance, price and metric is computed exactly and carries a
//! proved contract. The only outside calls are the draws of randomness,
//! each taken on trust as a plain integer about whose value nothing is
//! assumed.

pub mod fixed;
pub mod formula;
pub mod metrics;
pub mod monte_carlo;
pub mod pool;
pub mod random_walk;
pub mod result;
pub mod rng;
pub mod strategies;
pub mod trig;
