//! The aggregate outcome of a Monte Carlo run.

use vstd::prelude::*;
use crate::fixed::Fixed;
use crate::metrics::PoolMetrics;

verus! {

/// What a completed run reports: the average absolute price and liquidity
/// change per iteration, the extreme final prices over all iterations, and
/// the accumulated step metrics.
#[derive(Clone, Debug, PartialEq)]
pub struct SimulationResult {
    pub average_price_change: Fixed,
    pub average_liquidity_change: Fixed,
    pub max_price: Fixed,
    pub min_price: Fixed,
    pub metrics: PoolMetrics,
}

impl Default for SimulationResult {
    /// The all-zero result, reported for a run of no iterations.
    fn default() -> (r: SimulationResult)
        ensures
            r.average_price_change@ == 0,
            r.average_liquidity_change@ == 0,
            r.max_price@ == 0,
            r.min_price@ == 0,
            r.metrics.steps@.len() == 0,
            r.metrics.price_volatility@ == 0,
            r.metrics.liquidity_depth@ == 0,
            r.metrics.trading_volume@ == 0,
            r.metrics.impermanent_loss@ == 0,
    {
        SimulationResult {
            average_price_change: Fixed { units: 0 },
            average_liquidity_change: Fixed { units: 0 },
            max_price: Fixed { units: 0 },
            min_price: Fixed { units: 0 },
            metrics: PoolMetrics::new(),
        }
    }
}

impl SimulationResult {
    /// Builds a result from its parts.
    pub fn new(
        average_price_change: Fixed,
        average_liquidity_change: Fixed,
        max_price: Fixed,
        min_price: Fixed,
        metrics: PoolMetrics,
    ) -> (r: SimulationResult)
        ensures
            r.average_price_change == average_price_change,
            r.average_liquidity_change == average_liquidity_change,
            r.max_price == max_price,
            r.min_price == min_price,
            r.metrics == metrics,
    {
        SimulationResult {
            average_price_change,
            average_liquidity_change,
            max_price,
            min_price,
            metrics,
        }
    }
}

} // verus!
