//! The Monte Carlo simulation driver.
//!
//! A run performs a fixed number of iterations, each a fixed number of
//! steps. Every step reads the current price, walks the reference price,
//! folds a snapshot into the metrics, tops the pool up where one side has
//! drained, and lets the strategy act. Per iteration the absolute price
//! and liquidity changes are accumulated, and the extreme final prices are
//! tracked across iterations; a run of zero iterations reports the
//! all-zero result at once.

use vstd::prelude::*;
use crate::fixed::{Fixed, s_rdiv, div_round, lemma_rdiv_in_range, lemma_rdiv_mag,
    lemma_mul_abs_bound};
use crate::formula::{BAL_MAX, PRICE_LIM};
use crate::metrics::{PoolMetrics, PoolMetricsStep, accumulate_pool_metrics, STEP_ADD, ACC_LIM,
    METRIC_IN_LIM};
use crate::pool::LiquidityPool;
use crate::pool::PoolError;
use crate::random_walk::MIN_PRICE;
use crate::result::SimulationResult;
use crate::strategies::TradingStrategy;

verus! {

/// Largest iteration and step count one run admits.
pub const ITER_LIM: usize = 1_000_000;

/// Whether a pool can contribute a metrics snapshot: its A balance is
/// positive, a quote exists, and the quote lies within the model's band.
/// A run takes its fixed initial snapshot exactly when this holds of the
/// pool at the start, and then records one snapshot at each step at which
/// it holds again.
pub open spec fn snapshot_ready(pool: LiquidityPool) -> bool {
    &&& pool@.token_a > 0
    &&& pool.can_quote_ba()
    &&& -(BAL_MAX as int) <= pool.quote_ba() <= BAL_MAX as int
}

/// A Monte Carlo simulation over one pool and one strategy.
pub struct MonteCarloSimulation {
    pool: LiquidityPool,
    iterations: usize,
    steps_per_iteration: usize,
    strategy: TradingStrategy,
    price_history: Vec<Fixed>,
    metrics_history: Vec<PoolMetrics>,
    alpha: Fixed,
    beta: Fixed,
}

impl MonteCarloSimulation {
    /// The pool being driven.
    pub closed spec fn spec_pool(&self) -> LiquidityPool {
        self.pool
    }

    /// The configured iteration count.
    pub closed spec fn spec_iterations(&self) -> int {
        self.iterations as int
    }

    /// The configured steps per iteration.
    pub closed spec fn spec_steps(&self) -> int {
        self.steps_per_iteration as int
    }

    /// The configured strategy.
    pub closed spec fn spec_strategy(&self) -> TradingStrategy {
        self.strategy
    }

    /// The random-walk variance parameters.
    pub closed spec fn spec_walk_params(&self) -> (int, int) {
        (self.alpha@, self.beta@)
    }

    /// The recorded price history.
    pub closed spec fn spec_price_history(&self) -> Seq<Fixed> {
        self.price_history@
    }

    /// The recorded metrics history.
    pub closed spec fn spec_metrics_history(&self) -> Seq<PoolMetrics> {
        self.metrics_history@
    }

    /// The simulation's invariant: a well-formed pool and strategy,
    /// iteration counts within the admitted range, and walk parameters in
    /// the model's band.
    pub open spec fn wf(&self) -> bool {
        &&& self.spec_pool().wf()
        &&& self.spec_strategy().wf()
        &&& 0 <= self.spec_iterations() <= ITER_LIM as int
        &&& 0 <= self.spec_steps() <= ITER_LIM as int
        &&& 0 <= self.spec_walk_params().0 <= BAL_MAX as int
        &&& 0 <= self.spec_walk_params().1 <= BAL_MAX as int
    }

    /// Builds a simulation from a pool, iteration counts, a strategy and
    /// the reference-walk variance parameters (which are distinct from the
    /// pool's own curve parameters).
    pub fn new(
        pool: LiquidityPool,
        iterations: usize,
        steps_per_iteration: usize,
        strategy: TradingStrategy,
        alpha: Fixed,
        beta: Fixed,
    ) -> (sim: MonteCarloSimulation)
        requires
            pool.wf(),
            strategy.wf(),
            iterations <= ITER_LIM,
            steps_per_iteration <= ITER_LIM,
            0 <= alpha@ <= BAL_MAX as int,
            0 <= beta@ <= BAL_MAX as int,
        ensures
            sim.wf(),
            sim.spec_pool() == pool,
            sim.spec_iterations() == iterations as int,
            sim.spec_steps() == steps_per_iteration as int,
            sim.spec_strategy() == strategy,
            sim.spec_walk_params() == (alpha@, beta@),
            sim.spec_price_history().len() == 0,
            sim.spec_metrics_history().len() == 0,
    {
        MonteCarloSimulation {
            pool,
            iterations,
            steps_per_iteration,
            strategy,
            price_history: Vec::new(),
            metrics_history: Vec::new(),
            alpha,
            beta,
        }
    }

    /// Runs the simulation to completion; it never fails. A run of zero
    /// iterations reports the all-zero result with empty metrics and
    /// leaves the simulation untouched. With iterations but no steps,
    /// nothing can move the pool, so the averages are exactly zero and
    /// both extreme prices equal the standing quote. Without an initial
    /// snapshot no metrics are ever recorded; with one, at most one
    /// snapshot per step is, and every accumulator stays within one step's
    /// contribution per recorded snapshot. A zero-variance walk leaves the
    /// reference price exactly where it stood, whatever the strategy does
    /// to the balances. Beyond these, the per-iteration price and
    /// liquidity changes depend on the dice, so only their sign and range
    /// are owed.
    #[verifier::rlimit(100)]
    pub fn run(&mut self) -> (res: Result<SimulationResult, PoolError>)
        requires
            old(self).wf(),
        ensures
            final(self).wf(),
            final(self).spec_iterations() == old(self).spec_iterations(),
            final(self).spec_steps() == old(self).spec_steps(),
            final(self).spec_strategy() == old(self).spec_strategy(),
            final(self).spec_price_history() == old(self).spec_price_history(),
            final(self).spec_metrics_history() == old(self).spec_metrics_history(),
            match res {
                Ok(r) => {
                    &&& (old(self).spec_iterations() == 0 ==> r.average_price_change@ == 0
                        && r.average_liquidity_change@ == 0 && r.max_price@ == 0 && r.min_price@
                        == 0 && r.metrics.steps@.len() == 0 && r.metrics.price_volatility@ == 0
                        && r.metrics.liquidity_depth@ == 0 && r.metrics.trading_volume@ == 0
                        && r.metrics.impermanent_loss@ == 0)
                    &&& r.min_price@ <= r.max_price@
                    &&& 0 <= r.average_price_change@ <= METRIC_IN_LIM as int
                    &&& 0 <= r.average_liquidity_change@ <= METRIC_IN_LIM as int
                    &&& -(METRIC_IN_LIM as int) <= r.min_price@ <= METRIC_IN_LIM as int
                    &&& -(METRIC_IN_LIM as int) <= r.max_price@ <= METRIC_IN_LIM as int
                    &&& r.metrics.steps@.len() <= old(self).spec_iterations() * old(
                        self,
                    ).spec_steps()
                    &&& (old(self).spec_iterations() == 0 ==> *final(self) == *old(self))
                    &&& (!snapshot_ready(old(self).spec_pool()) ==> r.metrics.steps@.len() == 0
                        && r.metrics.price_volatility@ == 0 && r.metrics.liquidity_depth@ == 0
                        && r.metrics.trading_volume@ == 0 && r.metrics.impermanent_loss@ == 0)
                    &&& 0 <= r.metrics.price_volatility@ <= r.metrics.steps@.len() * (
                    STEP_ADD as int)
                    &&& 0 <= r.metrics.liquidity_depth@ <= r.metrics.steps@.len() * (
                    STEP_ADD as int)
                    &&& 0 <= r.metrics.trading_volume@ <= r.metrics.steps@.len() * (
                    STEP_ADD as int)
                    &&& -(r.metrics.steps@.len() * (STEP_ADD as int))
                        <= r.metrics.impermanent_loss@ <= r.metrics.steps@.len() * (
                    STEP_ADD as int)
                    &&& (old(self).spec_iterations() > 0 && old(self).spec_steps() == 0 ==> {
                        &&& final(self).spec_pool() == old(self).spec_pool()
                        &&& r.average_price_change@ == 0
                        &&& r.average_liquidity_change@ == 0
                        &&& r.metrics.steps@.len() == 0
                        &&& (old(self).spec_pool().can_quote_ba() ==> r.max_price@ == old(
                            self,
                        ).spec_pool().quote_ba() && r.min_price@ == old(self).spec_pool().quote_ba())
                        &&& (!old(self).spec_pool().can_quote_ba() ==> r.max_price@ == 0
                            && r.min_price@ == 0)
                    })
                    &&& (old(self).spec_walk_params().0 == 0 && old(self).spec_walk_params().1 == 0
                        && old(self).spec_pool()@.p_ref >= MIN_PRICE as int
                        ==> final(self).spec_pool()@.p_ref == old(self).spec_pool()@.p_ref)
                    &&& (old(self).spec_iterations() > 0 && old(self).spec_steps() > 0
                        ==> MIN_PRICE as int <= final(self).spec_pool()@.p_ref)
                },
                Err(_) => false,
            },
    {
        if self.iterations == 0 {
            return Ok(SimulationResult::default());
        }
        let iters = self.iterations;
        let steps_per = self.steps_per_iteration;
        let strat = self.strategy;
        let walk_alpha = self.alpha;
        let walk_beta = self.beta;

        let mut total_price_change: i128 = 0;
        let mut total_liquidity_change: i128 = 0;
        let mut max_price: i128 = 0;
        let mut min_price: i128 = 0;
        let mut saw_price = false;

        let (initial_a, initial_b) = self.pool.get_balances();
        let zero = Fixed { units: 0 };
        let mut initial_step = PoolMetricsStep {
            price: zero,
            p_ref: zero,
            balances_a: zero,
            balances_b: zero,
            ratio: zero,
        };
        let mut have_initial = false;
        if initial_a.units > 0 {
            match self.pool.try_get_price() {
                Some(p0) => {
                    if -BAL_MAX <= p0.units && p0.units <= BAL_MAX {
                        proof {
                            lemma_mul_abs_bound(
                                initial_b@,
                                1_000_000_000_000int,
                                BAL_MAX as int,
                                1_000_000_000_000int,
                            );
                        }
                        let r0 = initial_b.div(initial_a);
                        initial_step = PoolMetricsStep {
                            price: p0,
                            p_ref: self.pool.get_p_ref(),
                            balances_a: initial_a,
                            balances_b: initial_b,
                            ratio: r0,
                        };
                        have_initial = true;
                    }
                },
                None => {},
            }
        }

        let mut pool_metrics = PoolMetrics::new();
        let mut it: usize = 0;
        while it < iters
            invariant
                it <= iters,
                0 < iters <= ITER_LIM,
                steps_per <= ITER_LIM,
                self.iterations == iters,
                self.steps_per_iteration == steps_per,
                self.strategy == strat,
                self.alpha == walk_alpha,
                self.beta == walk_beta,
                self.spec_price_history() == old(self).spec_price_history(),
                self.spec_metrics_history() == old(self).spec_metrics_history(),
                self.spec_pool().wf(),
                strat.wf(),
                0 <= walk_alpha@ <= BAL_MAX as int,
                0 <= walk_beta@ <= BAL_MAX as int,
                have_initial ==> initial_step.in_range(),
                pool_metrics.steps@.len() <= (it as int) * (steps_per as int),
                0 <= pool_metrics.price_volatility@ <= pool_metrics.steps@.len() * (
                STEP_ADD as int),
                0 <= pool_metrics.liquidity_depth@ <= pool_metrics.steps@.len() * (STEP_ADD as int),
                0 <= pool_metrics.trading_volume@ <= pool_metrics.steps@.len() * (STEP_ADD as int),
                -(pool_metrics.steps@.len() * (STEP_ADD as int)) <= pool_metrics.impermanent_loss@
                    <= pool_metrics.steps@.len() * (STEP_ADD as int),
                0 <= total_price_change <= (it as int) * (2 * (PRICE_LIM as int)),
                0 <= total_liquidity_change <= (it as int) * (2 * (PRICE_LIM as int)),
                !saw_price ==> max_price == 0 && min_price == 0,
                saw_price ==> -(PRICE_LIM as int) < min_price <= max_price < PRICE_LIM as int,
                it == 0 ==> !saw_price,
                have_initial == snapshot_ready(old(self).spec_pool()),
                !have_initial ==> pool_metrics.steps@.len() == 0
                    && pool_metrics.price_volatility@ == 0 && pool_metrics.liquidity_depth@ == 0
                    && pool_metrics.trading_volume@ == 0 && pool_metrics.impermanent_loss@ == 0,
                steps_per == 0 ==> self.spec_pool() == old(self).spec_pool()
                    && total_price_change == 0 && total_liquidity_change == 0,
                steps_per == 0 && it > 0 && old(self).spec_pool().can_quote_ba() ==> saw_price
                    && max_price as int == old(self).spec_pool().quote_ba() && min_price as int
                    == old(self).spec_pool().quote_ba(),
                steps_per == 0 && !old(self).spec_pool().can_quote_ba() ==> !saw_price,
                walk_alpha@ == 0 && walk_beta@ == 0 && old(self).spec_pool()@.p_ref >= MIN_PRICE
                    as int ==> self.spec_pool()@.p_ref == old(self).spec_pool()@.p_ref,
                it > 0 && steps_per > 0 ==> MIN_PRICE as int <= self.spec_pool()@.p_ref,
            decreases iters - it,
        {
            let iter_initial_price = self.pool.try_get_price();
            let (it_a, it_b) = self.pool.get_balances();
            let initial_liquidity: i128 = it_a.units + it_b.units;

            let mut j: usize = 0;
            while j < steps_per
                invariant
                    j <= steps_per,
                    it < iters <= ITER_LIM,
                    steps_per <= ITER_LIM,
                    self.iterations == iters,
                    self.steps_per_iteration == steps_per,
                    self.strategy == strat,
                    self.alpha == walk_alpha,
                    self.beta == walk_beta,
                    self.spec_price_history() == old(self).spec_price_history(),
                    self.spec_metrics_history() == old(self).spec_metrics_history(),
                    self.spec_pool().wf(),
                    strat.wf(),
                    0 <= walk_alpha@ <= BAL_MAX as int,
                    0 <= walk_beta@ <= BAL_MAX as int,
                    have_initial ==> initial_step.in_range(),
                    pool_metrics.steps@.len() <= (it as int) * (steps_per as int) + (j as int),
                    0 <= pool_metrics.price_volatility@ <= pool_metrics.steps@.len() * (
                    STEP_ADD as int),
                    0 <= pool_metrics.liquidity_depth@ <= pool_metrics.steps@.len() * (
                    STEP_ADD as int),
                    0 <= pool_metrics.trading_volume@ <= pool_metrics.steps@.len() * (
                    STEP_ADD as int),
                    -(pool_metrics.steps@.len() * (STEP_ADD as int))
                        <= pool_metrics.impermanent_loss@ <= pool_metrics.steps@.len() * (
                    STEP_ADD as int),
                    !have_initial ==> pool_metrics.steps@.len() == 0
                        && pool_metrics.price_volatility@ == 0
                        && pool_metrics.liquidity_depth@ == 0
                        && pool_metrics.trading_volume@ == 0
                        && pool_metrics.impermanent_loss@ == 0,
                    steps_per == 0 ==> self.spec_pool() == old(self).spec_pool(),
                    walk_alpha@ == 0 && walk_beta@ == 0 && old(self).spec_pool()@.p_ref
                        >= MIN_PRICE as int
                        ==> self.spec_pool()@.p_ref == old(self).spec_pool()@.p_ref,
                    j > 0 || (it > 0 && steps_per > 0) ==> MIN_PRICE as int
                        <= self.spec_pool()@.p_ref,
                decreases steps_per - j,
            {
                let current_price = self.pool.try_get_price();
                self.pool.set_p_ref(walk_alpha, walk_beta);
                if have_initial {
                    let (cur_a, _cur_b) = self.pool.get_balances();
                    if cur_a.units > 0 {
                        match self.pool.try_get_price() {
                            Some(p) => {
                                if -BAL_MAX <= p.units && p.units <= BAL_MAX {
                                    proof {
                                        lemma_step_budget(
                                            it as int,
                                            j as int,
                                            steps_per as int,
                                            pool_metrics.steps@.len() as int,
                                        );
                                    }
                                    let _ = accumulate_pool_metrics(
                                        &self.pool,
                                        &mut pool_metrics,
                                        &initial_step,
                                    );
                                }
                            },
                            None => {},
                        }
                    }
                }
                self.add_liquidity_if_needed();
                match current_price {
                    Some(cp) => {
                        let _ = strat.execute(&mut self.pool, cp);
                    },
                    None => {},
                }
                j = j + 1;
            }

            proof {
                lemma_iter_budget(it as int, steps_per as int);
            }
            let (fin_a, fin_b) = self.pool.get_balances();
            let final_liquidity: i128 = fin_a.units + fin_b.units;
            let dl: i128 = if final_liquidity >= initial_liquidity {
                final_liquidity - initial_liquidity
            } else {
                initial_liquidity - final_liquidity
            };
            total_liquidity_change = total_liquidity_change + dl;

            match self.pool.try_get_price() {
                Some(fp) => {
                    if saw_price {
                        if fp.units > max_price {
                            max_price = fp.units;
                        }
                        if fp.units < min_price {
                            min_price = fp.units;
                        }
                    } else {
                        max_price = fp.units;
                        min_price = fp.units;
                        saw_price = true;
                    }
                    match iter_initial_price {
                        Some(ip0) => {
                            let dp: i128 = if fp.units >= ip0.units {
                                fp.units - ip0.units
                            } else {
                                ip0.units - fp.units
                            };
                            total_price_change = total_price_change + dp;
                        },
                        None => {},
                    }
                },
                None => {},
            }
            it = it + 1;
        }

        let iters_i: i128 = iters as i128;
        proof {
            lemma_rdiv_mag(total_price_change as int, iters_i as int, 2 * (PRICE_LIM as int));
            lemma_rdiv_mag(total_liquidity_change as int, iters_i as int, 2 * (PRICE_LIM as int));
            lemma_rdiv_in_range(total_price_change as int, iters_i as int);
            lemma_rdiv_in_range(total_liquidity_change as int, iters_i as int);
            lemma_mul_abs_bound(iters as int, steps_per as int, ITER_LIM as int, ITER_LIM as int);
        }
        let average_price_change = Fixed { units: div_round(total_price_change, iters_i) };
        let average_liquidity_change = Fixed { units: div_round(total_liquidity_change, iters_i) };
        Ok(
            SimulationResult::new(
                average_price_change,
                average_liquidity_change,
                Fixed { units: max_price },
                Fixed { units: min_price },
                pool_metrics,
            ),
        )
    }

    /// The rebalancing safety valve: where one balance has fallen below
    /// half of the other, it is topped up to exactly that half, before the
    /// strategy acts. At most one side can need it at a time.
    fn add_liquidity_if_needed(&mut self)
        requires
            old(self).spec_pool().wf(),
        ensures
            final(self).spec_pool().wf(),
            final(self).spec_iterations() == old(self).spec_iterations(),
            final(self).spec_steps() == old(self).spec_steps(),
            final(self).spec_strategy() == old(self).spec_strategy(),
            final(self).spec_walk_params() == old(self).spec_walk_params(),
            final(self).spec_price_history() == old(self).spec_price_history(),
            final(self).spec_metrics_history() == old(self).spec_metrics_history(),
            final(self).spec_pool()@.p_ref == old(self).spec_pool()@.p_ref,
            final(self).spec_pool()@.alpha == old(self).spec_pool()@.alpha,
            final(self).spec_pool()@.beta == old(self).spec_pool()@.beta,
            ({
                let a = old(self).spec_pool()@.token_a;
                let b = old(self).spec_pool()@.token_b;
                let a2 = final(self).spec_pool()@.token_a;
                let b2 = final(self).spec_pool()@.token_b;
                if a < s_rdiv(b, 2) {
                    a2 == s_rdiv(b, 2) && b2 == b
                } else if b < s_rdiv(a, 2) {
                    b2 == s_rdiv(a, 2) && a2 == a
                } else {
                    a2 == a && b2 == b
                }
            }),
    {
        let (token_a, token_b) = self.pool.get_balances();
        proof {
            lemma_rdiv_in_range(token_a@, 2);
            lemma_rdiv_in_range(token_b@, 2);
        }
        let half_b = div_round(token_b.units, 2);
        let half_a = div_round(token_a.units, 2);
        if token_a.units < half_b {
            let amount = Fixed { units: half_b - token_a.units };
            self.pool.credit_a(amount);
        } else if token_b.units < half_a {
            let amount = Fixed { units: half_a - token_b.units };
            self.pool.credit_b(amount);
        }
    }

    /// The recorded price history.
    pub fn get_price_history(&self) -> (r: Vec<Fixed>)
        ensures
            r@ == self.spec_price_history(),
    {
        let mut out: Vec<Fixed> = Vec::new();
        let mut i: usize = 0;
        while i < self.price_history.len()
            invariant
                i <= self.price_history@.len(),
                out@ == self.price_history@.subrange(0, i as int),
            decreases self.price_history@.len() - i,
        {
            out.push(self.price_history[i]);
            proof {
                assert(out@ == self.price_history@.subrange(0, i + 1));
            }
            i = i + 1;
        }
        proof {
            assert(self.price_history@.subrange(0, self.price_history@.len() as int)
                == self.price_history@);
        }
        out
    }

    /// The recorded metrics history, one record per entry.
    pub fn get_metrics_history(&self) -> (r: Vec<PoolMetrics>)
        ensures
            r@.len() == self.spec_metrics_history().len(),
            forall|i: int| 0 <= i < r@.len() ==> {
                &&& (#[trigger] r@[i]).steps@ == self.spec_metrics_history()[i].steps@
                &&& r@[i].price_volatility == self.spec_metrics_history()[i].price_volatility
                &&& r@[i].liquidity_depth == self.spec_metrics_history()[i].liquidity_depth
                &&& r@[i].trading_volume == self.spec_metrics_history()[i].trading_volume
                &&& r@[i].impermanent_loss == self.spec_metrics_history()[i].impermanent_loss
            },
    {
        let mut out: Vec<PoolMetrics> = Vec::new();
        let mut i: usize = 0;
        while i < self.metrics_history.len()
            invariant
                i <= self.metrics_history@.len(),
                out@.len() == i as int,
                forall|k: int| 0 <= k < i as int ==> {
                    &&& (#[trigger] out@[k]).steps@ == self.metrics_history@[k].steps@
                    &&& out@[k].price_volatility == self.metrics_history@[k].price_volatility
                    &&& out@[k].liquidity_depth == self.metrics_history@[k].liquidity_depth
                    &&& out@[k].trading_volume == self.metrics_history@[k].trading_volume
                    &&& out@[k].impermanent_loss == self.metrics_history@[k].impermanent_loss
                },
            decreases self.metrics_history@.len() - i,
        {
            let src = &self.metrics_history[i];
            let mut steps: Vec<PoolMetricsStep> = Vec::new();
            let mut k: usize = 0;
            while k < src.steps.len()
                invariant
                    k <= src.steps@.len(),
                    steps@ == src.steps@.subrange(0, k as int),
                decreases src.steps@.len() - k,
            {
                steps.push(src.steps[k]);
                proof {
                    assert(steps@ == src.steps@.subrange(0, k + 1));
                }
                k = k + 1;
            }
            proof {
                assert(src.steps@.subrange(0, src.steps@.len() as int) == src.steps@);
            }
            out.push(
                PoolMetrics {
                    steps,
                    price_volatility: src.price_volatility,
                    liquidity_depth: src.liquidity_depth,
                    trading_volume: src.trading_volume,
                    impermanent_loss: src.impermanent_loss,
                },
            );
            i = i + 1;
        }
        out
    }

    /// The pool in its state after the run so far.
    pub fn get_final_pool(&self) -> (p: LiquidityPool)
        ensures
            p == self.spec_pool(),
    {
        self.pool
    }
}

/// One more iteration keeps the running sums and the step record within
/// their bands.
proof fn lemma_iter_budget(it: int, steps_per: int)
    requires
        0 <= it < ITER_LIM as int,
        0 <= steps_per <= ITER_LIM as int,
    ensures
        it * (2 * (PRICE_LIM as int)) <= (ITER_LIM as int) * (2 * (PRICE_LIM as int)),
        (it + 1) * (2 * (PRICE_LIM as int)) == it * (2 * (PRICE_LIM as int)) + 2 * (
        PRICE_LIM as int),
        (it + 1) * steps_per == it * steps_per + steps_per,
        it * steps_per + steps_per <= (ITER_LIM as int) * (ITER_LIM as int),
{
    assert(it * (2 * (PRICE_LIM as int)) <= (ITER_LIM as int) * (2 * (PRICE_LIM as int)))
        by (nonlinear_arith)
        requires
            0 <= it < ITER_LIM as int,
    ;
    assert((it + 1) * (2 * (PRICE_LIM as int)) == it * (2 * (PRICE_LIM as int)) + 2 * (
    PRICE_LIM as int)) by (nonlinear_arith);
    assert((it + 1) * steps_per == it * steps_per + steps_per) by (nonlinear_arith);
    assert((it + 1) * steps_per <= (ITER_LIM as int) * (ITER_LIM as int)) by (nonlinear_arith)
        requires
            0 <= it < ITER_LIM as int,
            0 <= steps_per <= ITER_LIM as int,
    ;
}

/// Within the admitted iteration and step counts, the metrics record has
/// room for one more step without any accumulator leaving its band.
proof fn lemma_step_budget(it: int, j: int, steps_per: int, len: int)
    requires
        0 <= it < ITER_LIM as int,
        0 <= j < steps_per <= ITER_LIM as int,
        0 <= len <= it * steps_per + j,
    ensures
        len * (STEP_ADD as int) <= ACC_LIM as int,
        -(ACC_LIM as int) <= -(len * (STEP_ADD as int)),
{
    assert(it * steps_per <= (ITER_LIM as int) * (ITER_LIM as int)) by (nonlinear_arith)
        requires
            0 <= it < ITER_LIM as int,
            0 <= steps_per <= ITER_LIM as int,
    ;
    assert(len * (STEP_ADD as int) <= ACC_LIM as int) by (nonlinear_arith)
        requires
            0 <= len <= (ITER_LIM as int) * (ITER_LIM as int) + ITER_LIM as int,
    ;
}

} // verus!
