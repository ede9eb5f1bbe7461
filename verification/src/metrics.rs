//! Per-step pool metrics and their running accumulation.
//!
//! Each simulation step takes a snapshot of the pool and folds it into four
//! running sums — price volatility, liquidity depth, trading volume and
//! impermanent loss — each compared against the run's fixed initial
//! snapshot. Degenerate inputs (zero initial price, negative values) yield
//! clamped sentinel values rather than errors.

use vstd::prelude::*;
use crate::fixed::{Fixed, SCALE, s_mul, s_div, s_rdiv, spec_isqrt, isqrt, div_round,
    lemma_rdiv_in_range, lemma_rdiv_mag, lemma_mul_abs_bound};
use crate::formula::BAL_MAX;
use crate::pool::LiquidityPool;

verus! {

/// Bound on the inputs of the range-style metrics (price stability,
/// liquidity efficiency), well beyond any value a run can produce.
pub const METRIC_IN_LIM: i128 = 80_000_000_000_000_000_000_000_000;

/// Bound each accumulator stays under through any admissible run.
pub const ACC_LIM: i128 = 100_000_000_000_000_000_000_000_000_000_000_000;

/// Largest amount one step can add to an accumulator's magnitude.
pub const STEP_ADD: i128 = 50_000_000_000_000_000_000;

/// Clamps a value into `[0, SCALE]` (the interval from zero to one).
pub open spec fn clamp01(x: int) -> int {
    if x < 0 {
        0
    } else if x > SCALE as int {
        SCALE as int
    } else {
        x
    }
}

/// Clamps a value into `[-SCALE, SCALE]` (minus one to one).
pub open spec fn clamp11(x: int) -> int {
    if x < -(SCALE as int) {
        -(SCALE as int)
    } else if x > SCALE as int {
        SCALE as int
    } else {
        x
    }
}

/// The volatility contribution of one step: `|cp - ip| / ip` clamped to
/// `[0, 1]`, with one as the sentinel for a negative input or a zero
/// initial price with movement, and zero when both prices are zero.
pub open spec fn volatility_spec(cp: int, ip: int) -> int {
    if cp < 0 || ip < 0 {
        SCALE as int
    } else if ip == 0 {
        if cp == 0 {
            0
        } else {
            SCALE as int
        }
    } else {
        clamp01(s_div(if cp >= ip { cp - ip } else { ip - cp }, ip))
    }
}

/// The liquidity depth of one step: the square root of the product of the
/// balances, or zero where that root is undefined.
pub open spec fn depth_spec(a: int, b: int) -> int {
    if a * b < 0 {
        0
    } else {
        spec_isqrt(a * b)
    }
}

/// The trading volume of one step against the initial snapshot: the sum of
/// the absolute balance changes.
pub open spec fn volume_spec(a: int, b: int, ia: int, ib: int) -> int {
    (if a >= ia { a - ia } else { ia - a }) + (if b >= ib { b - ib } else { ib - b })
}

/// The impermanent loss of one step: the relative difference between the
/// value held in the pool and the value of passively holding the initial
/// balances, clamped to `[-1, 1]`, with the same sentinel conventions as
/// the volatility.
pub open spec fn il_spec(a: int, b: int, ia: int, ib: int, cp: int, ip: int) -> int {
    if a < 0 || b < 0 || ia < 0 || ib < 0 || cp < 0 || ip < 0 {
        0
    } else if ip == 0 {
        if cp == 0 {
            0
        } else {
            SCALE as int
        }
    } else {
        let value_if_held = s_rdiv(ia * cp, ip) + ib;
        let value_in_pool = s_mul(a, cp) + b;
        if value_if_held == 0 {
            if value_in_pool == 0 {
                0
            } else {
                SCALE as int
            }
        } else {
            clamp11(s_div(value_in_pool, value_if_held) - SCALE)
        }
    }
}

/// The price stability of a whole run: one minus the price range over its
/// midpoint, clamped to `[0, 1]`; one when no movement happened at all and
/// zero for an empty or invalid range.
pub open spec fn stability_spec(min_price: int, max_price: int) -> int {
    if min_price == 0 && max_price == 0 {
        SCALE as int
    } else if min_price < 0 || max_price < 0 || min_price > max_price {
        0
    } else {
        let avg = s_rdiv(min_price + max_price, 2);
        if avg == 0 {
            0
        } else {
            clamp01((SCALE as int) - s_div(max_price - min_price, avg))
        }
    }
}

/// The liquidity efficiency of a run: the reciprocal of one plus the
/// average liquidity change, clamped to `[0, 1]`, and zero where the
/// denominator vanishes or turns negative.
pub open spec fn efficiency_spec(change: int) -> int {
    let den = (SCALE as int) + change;
    if den <= 0 {
        0
    } else {
        clamp01(s_rdiv((SCALE as int) * (SCALE as int), den))
    }
}

/// Computes the volatility contribution of one step.
pub fn calculate_price_volatility(current_price: Fixed, initial_price: Fixed) -> (r: Fixed)
    requires
        current_price@ <= METRIC_IN_LIM as int,
        initial_price@ <= METRIC_IN_LIM as int,
    ensures
        r@ == volatility_spec(current_price@, initial_price@),
        0 <= r@ <= SCALE as int,
{
    if current_price.units < 0 || initial_price.units < 0 {
        return Fixed { units: SCALE };
    }
    if initial_price.units == 0 {
        if current_price.units == 0 {
            return Fixed { units: 0 };
        }
        return Fixed { units: SCALE };
    }
    let d: i128 = if current_price.units >= initial_price.units {
        current_price.units - initial_price.units
    } else {
        initial_price.units - current_price.units
    };
    proof {
        lemma_mul_abs_bound(d as int, SCALE as int, METRIC_IN_LIM as int, SCALE as int);
        lemma_rdiv_in_range((d as int) * (SCALE as int), initial_price@);
    }
    let q = div_round(d * SCALE, initial_price.units);
    if q > SCALE {
        Fixed { units: SCALE }
    } else {
        Fixed { units: q }
    }
}

/// Computes the liquidity depth of one step.
pub fn calculate_liquidity_depth(token_a: Fixed, token_b: Fixed) -> (r: Fixed)
    requires
        -(BAL_MAX as int) <= token_a@ <= BAL_MAX as int,
        -(BAL_MAX as int) <= token_b@ <= BAL_MAX as int,
    ensures
        r@ == depth_spec(token_a@, token_b@),
        0 <= r@ <= BAL_MAX as int,
{
    proof {
        lemma_mul_abs_bound(token_a@, token_b@, BAL_MAX as int, BAL_MAX as int);
    }
    let p: i128 = token_a.units * token_b.units;
    if p < 0 {
        return Fixed { units: 0 };
    }
    let root = isqrt(p as u128);
    proof {
        assert((root as int) * (root as int) <= p as int);
        assert((BAL_MAX as int) * (BAL_MAX as int) < ((BAL_MAX as int) + 1) * ((BAL_MAX as int)
            + 1)) by (nonlinear_arith);
        assert(root as int <= BAL_MAX as int) by (nonlinear_arith)
            requires
                (root as int) * (root as int) <= p as int,
                p as int <= (BAL_MAX as int) * (BAL_MAX as int),
                0 <= root,
        ;
    }
    Fixed { units: root as i128 }
}

/// Computes the trading volume of one step against the initial snapshot.
pub fn calculate_trading_volume(token_a: Fixed, token_b: Fixed, initial_a: Fixed, initial_b: Fixed)
    -> (r: Fixed)
    requires
        -(BAL_MAX as int) <= token_a@ <= BAL_MAX as int,
        -(BAL_MAX as int) <= token_b@ <= BAL_MAX as int,
        -(BAL_MAX as int) <= initial_a@ <= BAL_MAX as int,
        -(BAL_MAX as int) <= initial_b@ <= BAL_MAX as int,
    ensures
        r@ == volume_spec(token_a@, token_b@, initial_a@, initial_b@),
        0 <= r@ <= 4 * (BAL_MAX as int),
{
    let da: i128 = if token_a.units >= initial_a.units {
        token_a.units - initial_a.units
    } else {
        initial_a.units - token_a.units
    };
    let db: i128 = if token_b.units >= initial_b.units {
        token_b.units - initial_b.units
    } else {
        initial_b.units - token_b.units
    };
    Fixed { units: da + db }
}

/// Computes the impermanent loss of one step against the initial snapshot.
pub fn calculate_impermanent_loss(
    token_a: Fixed,
    token_b: Fixed,
    initial_a: Fixed,
    initial_b: Fixed,
    current_price: Fixed,
    initial_price: Fixed,
) -> (r: Fixed)
    requires
        token_a@ <= BAL_MAX as int,
        token_b@ <= BAL_MAX as int,
        initial_a@ <= BAL_MAX as int,
        initial_b@ <= BAL_MAX as int,
        current_price@ <= BAL_MAX as int,
        initial_price@ <= BAL_MAX as int,
    ensures
        r@ == il_spec(
            token_a@,
            token_b@,
            initial_a@,
            initial_b@,
            current_price@,
            initial_price@,
        ),
        -(SCALE as int) <= r@ <= SCALE as int,
{
    if token_a.units < 0 || token_b.units < 0 || initial_a.units < 0 || initial_b.units < 0
        || current_price.units < 0 || initial_price.units < 0 {
        return Fixed { units: 0 };
    }
    if initial_price.units == 0 {
        if current_price.units == 0 {
            return Fixed { units: 0 };
        }
        return Fixed { units: SCALE };
    }
    proof {
        lemma_mul_abs_bound(initial_a@, current_price@, BAL_MAX as int, BAL_MAX as int);
        lemma_rdiv_in_range(initial_a@ * current_price@, initial_price@);
        lemma_mul_abs_bound(token_a@, current_price@, BAL_MAX as int, BAL_MAX as int);
        lemma_rdiv_mag(
            token_a@ * current_price@,
            SCALE as int,
            100_000_000_000_000_000_000_000_000int,
        );
    }
    let value_if_held: i128 = div_round(initial_a.units * current_price.units, initial_price.units)
        + initial_b.units;
    let value_in_pool: i128 = div_round(token_a.units * current_price.units, SCALE)
        + token_b.units;
    if value_if_held == 0 {
        if value_in_pool == 0 {
            return Fixed { units: 0 };
        }
        return Fixed { units: SCALE };
    }
    proof {
        lemma_mul_abs_bound(
            value_in_pool as int,
            SCALE as int,
            100_010_000_000_000_000_000_000_000int,
            SCALE as int,
        );
        lemma_rdiv_in_range((value_in_pool as int) * (SCALE as int), value_if_held as int);
    }
    let q = div_round(value_in_pool * SCALE, value_if_held);
    let il: i128 = q - SCALE;
    if il < -SCALE {
        Fixed { units: -SCALE }
    } else if il > SCALE {
        Fixed { units: SCALE }
    } else {
        Fixed { units: il }
    }
}

/// Computes the price stability of a completed run from its price range.
pub fn calculate_price_stability(min_price: Fixed, max_price: Fixed) -> (r: Fixed)
    requires
        min_price@ <= METRIC_IN_LIM as int,
        max_price@ <= METRIC_IN_LIM as int,
    ensures
        r@ == stability_spec(min_price@, max_price@),
        0 <= r@ <= SCALE as int,
{
    if min_price.units == 0 && max_price.units == 0 {
        return Fixed { units: SCALE };
    }
    if min_price.units < 0 || max_price.units < 0 || min_price.units > max_price.units {
        return Fixed { units: 0 };
    }
    proof {
        lemma_rdiv_in_range(min_price@ + max_price@, 2);
    }
    let avg = div_round(min_price.units + max_price.units, 2);
    if avg == 0 {
        return Fixed { units: 0 };
    }
    proof {
        lemma_mul_abs_bound(
            max_price@ - min_price@,
            SCALE as int,
            METRIC_IN_LIM as int,
            SCALE as int,
        );
        lemma_rdiv_in_range((max_price@ - min_price@) * (SCALE as int), avg as int);
    }
    let q = div_round((max_price.units - min_price.units) * SCALE, avg);
    let stab: i128 = SCALE - q;
    if stab < 0 {
        Fixed { units: 0 }
    } else if stab > SCALE {
        Fixed { units: SCALE }
    } else {
        Fixed { units: stab }
    }
}

/// Computes the liquidity efficiency of a completed run from its average
/// liquidity change.
pub fn calculate_liquidity_efficiency(average_liquidity_change: Fixed) -> (r: Fixed)
    requires
        -(METRIC_IN_LIM as int) <= average_liquidity_change@ <= METRIC_IN_LIM as int,
    ensures
        r@ == efficiency_spec(average_liquidity_change@),
        0 <= r@ <= SCALE as int,
{
    let den: i128 = SCALE + average_liquidity_change.units;
    if den <= 0 {
        return Fixed { units: 0 };
    }
    proof {
        lemma_rdiv_in_range((SCALE as int) * (SCALE as int), den as int);
    }
    let q = div_round(SCALE * SCALE, den);
    if q > SCALE {
        Fixed { units: SCALE }
    } else {
        Fixed { units: q }
    }
}

/// One snapshot of the pool, taken once per simulation step.
#[derive(Clone, Copy, Debug, PartialEq, Eq, Structural)]
pub struct PoolMetricsStep {
    pub price: Fixed,
    pub p_ref: Fixed,
    pub balances_a: Fixed,
    pub balances_b: Fixed,
    pub ratio: Fixed,
}

impl PoolMetricsStep {
    /// Whether every field of the snapshot that the accumulators read lies
    /// within the model's range.
    pub open spec fn in_range(&self) -> bool {
        &&& -(BAL_MAX as int) <= self.price@ <= BAL_MAX as int
        &&& -(BAL_MAX as int) <= self.balances_a@ <= BAL_MAX as int
        &&& -(BAL_MAX as int) <= self.balances_b@ <= BAL_MAX as int
    }
}

/// The ordered step snapshots of a run together with the four running
/// accumulators.
#[derive(Clone, Debug, PartialEq)]
pub struct PoolMetrics {
    pub steps: Vec<PoolMetricsStep>,
    pub price_volatility: Fixed,
    pub liquidity_depth: Fixed,
    pub trading_volume: Fixed,
    pub impermanent_loss: Fixed,
}

impl Default for PoolMetrics {
    /// The empty record, as `new` builds it.
    fn default() -> (m: PoolMetrics)
        ensures
            m.steps@.len() == 0,
            m.price_volatility@ == 0,
            m.liquidity_depth@ == 0,
            m.trading_volume@ == 0,
            m.impermanent_loss@ == 0,
    {
        PoolMetrics::new()
    }
}

impl PoolMetrics {
    /// Whether every accumulator is within the band that admits one more
    /// step without leaving the machine word.
    pub open spec fn accs_in_range(&self) -> bool {
        &&& -(ACC_LIM as int) <= self.price_volatility@ <= ACC_LIM as int
        &&& -(ACC_LIM as int) <= self.liquidity_depth@ <= ACC_LIM as int
        &&& -(ACC_LIM as int) <= self.trading_volume@ <= ACC_LIM as int
        &&& -(ACC_LIM as int) <= self.impermanent_loss@ <= ACC_LIM as int
    }

    /// An empty record: no steps, all accumulators zero.
    pub fn new() -> (m: PoolMetrics)
        ensures
            m.steps@.len() == 0,
            m.price_volatility@ == 0,
            m.liquidity_depth@ == 0,
            m.trading_volume@ == 0,
            m.impermanent_loss@ == 0,
    {
        PoolMetrics {
            steps: Vec::new(),
            price_volatility: Fixed { units: 0 },
            liquidity_depth: Fixed { units: 0 },
            trading_volume: Fixed { units: 0 },
            impermanent_loss: Fixed { units: 0 },
        }
    }

    /// The recorded prices, one per step, in order.
    pub fn get_prices(&self) -> (r: Vec<Fixed>)
        ensures
            r@.len() == self.steps@.len(),
            forall|i: int| 0 <= i < r@.len() ==> r@[i] == self.steps@[i].price,
    {
        let mut out: Vec<Fixed> = Vec::new();
        let mut i: usize = 0;
        while i < self.steps.len()
            invariant
                i <= self.steps@.len(),
                out@.len() == i as int,
                forall|j: int| 0 <= j < i as int ==> out@[j] == self.steps@[j].price,
            decreases self.steps@.len() - i,
        {
            out.push(self.steps[i].price);
            i = i + 1;
        }
        out
    }

    /// The recorded reference prices, one per step, in order.
    pub fn get_p_ref(&self) -> (r: Vec<Fixed>)
        ensures
            r@.len() == self.steps@.len(),
            forall|i: int| 0 <= i < r@.len() ==> r@[i] == self.steps@[i].p_ref,
    {
        let mut out: Vec<Fixed> = Vec::new();
        let mut i: usize = 0;
        while i < self.steps.len()
            invariant
                i <= self.steps@.len(),
                out@.len() == i as int,
                forall|j: int| 0 <= j < i as int ==> out@[j] == self.steps@[j].p_ref,
            decreases self.steps@.len() - i,
        {
            out.push(self.steps[i].p_ref);
            i = i + 1;
        }
        out
    }

    /// The recorded A balances, one per step, in order.
    pub fn get_balances_a(&self) -> (r: Vec<Fixed>)
        ensures
            r@.len() == self.steps@.len(),
            forall|i: int| 0 <= i < r@.len() ==> r@[i] == self.steps@[i].balances_a,
    {
        let mut out: Vec<Fixed> = Vec::new();
        let mut i: usize = 0;
        while i < self.steps.len()
            invariant
                i <= self.steps@.len(),
                out@.len() == i as int,
                forall|j: int| 0 <= j < i as int ==> out@[j] == self.steps@[j].balances_a,
            decreases self.steps@.len() - i,
        {
            out.push(self.steps[i].balances_a);
            i = i + 1;
        }
        out
    }

    /// The recorded B balances, one per step, in order.
    pub fn get_balances_b(&self) -> (r: Vec<Fixed>)
        ensures
            r@.len() == self.steps@.len(),
            forall|i: int| 0 <= i < r@.len() ==> r@[i] == self.steps@[i].balances_b,
    {
        let mut out: Vec<Fixed> = Vec::new();
        let mut i: usize = 0;
        while i < self.steps.len()
            invariant
                i <= self.steps@.len(),
                out@.len() == i as int,
                forall|j: int| 0 <= j < i as int ==> out@[j] == self.steps@[j].balances_b,
            decreases self.steps@.len() - i,
        {
            out.push(self.steps[i].balances_b);
            i = i + 1;
        }
        out
    }

    /// The recorded imbalance ratios, one per step, in order.
    pub fn get_ratios(&self) -> (r: Vec<Fixed>)
        ensures
            r@.len() == self.steps@.len(),
            forall|i: int| 0 <= i < r@.len() ==> r@[i] == self.steps@[i].ratio,
    {
        let mut out: Vec<Fixed> = Vec::new();
        let mut i: usize = 0;
        while i < self.steps.len()
            invariant
                i <= self.steps@.len(),
                out@.len() == i as int,
                forall|j: int| 0 <= j < i as int ==> out@[j] == self.steps@[j].ratio,
            decreases self.steps@.len() - i,
        {
            out.push(self.steps[i].ratio);
            i = i + 1;
        }
        out
    }

    /// Folds one step into the four accumulators, comparing it against the
    /// run's fixed initial snapshot. The step list itself is unchanged.
    pub fn update_metrics(&mut self, current_step: &PoolMetricsStep, initial_step: &PoolMetricsStep)
        requires
            current_step.in_range(),
            initial_step.in_range(),
            old(self).accs_in_range(),
        ensures
            final(self).steps@ == old(self).steps@,
            final(self).price_volatility@ == old(self).price_volatility@ + volatility_spec(
                current_step.price@,
                initial_step.price@,
            ),
            final(self).liquidity_depth@ == old(self).liquidity_depth@ + depth_spec(
                current_step.balances_a@,
                current_step.balances_b@,
            ),
            final(self).trading_volume@ == old(self).trading_volume@ + volume_spec(
                current_step.balances_a@,
                current_step.balances_b@,
                initial_step.balances_a@,
                initial_step.balances_b@,
            ),
            final(self).impermanent_loss@ == old(self).impermanent_loss@ + il_spec(
                current_step.balances_a@,
                current_step.balances_b@,
                initial_step.balances_a@,
                initial_step.balances_b@,
                current_step.price@,
                initial_step.price@,
            ),
            final(self).price_volatility@ - old(self).price_volatility@ <= STEP_ADD as int,
            final(self).liquidity_depth@ - old(self).liquidity_depth@ <= STEP_ADD as int,
            final(self).trading_volume@ - old(self).trading_volume@ <= STEP_ADD as int,
            -(STEP_ADD as int) <= final(self).impermanent_loss@ - old(self).impermanent_loss@
                <= STEP_ADD as int,
            0 <= final(self).price_volatility@ - old(self).price_volatility@,
            0 <= final(self).liquidity_depth@ - old(self).liquidity_depth@,
            0 <= final(self).trading_volume@ - old(self).trading_volume@,
    {
        let vol = calculate_price_volatility(current_step.price, initial_step.price);
        self.price_volatility = self.price_volatility.add(vol);
        let depth = calculate_liquidity_depth(current_step.balances_a, current_step.balances_b);
        self.liquidity_depth = self.liquidity_depth.add(depth);
        let volume = calculate_trading_volume(
            current_step.balances_a,
            current_step.balances_b,
            initial_step.balances_a,
            initial_step.balances_b,
        );
        self.trading_volume = self.trading_volume.add(volume);
        let il = calculate_impermanent_loss(
            current_step.balances_a,
            current_step.balances_b,
            initial_step.balances_a,
            initial_step.balances_b,
            current_step.price,
            initial_step.price,
        );
        self.impermanent_loss = self.impermanent_loss.add(il);
    }
}

/// Takes the pool's current snapshot, appends it to the step list and folds
/// it into the accumulators against the run's initial snapshot.
pub fn accumulate_pool_metrics(
    pool: &LiquidityPool,
    metrics: &mut PoolMetrics,
    initial_step: &PoolMetricsStep,
)
    requires
        pool.wf(),
        pool.can_quote_ba(),
        pool@.token_a > 0,
        -(BAL_MAX as int) <= pool.quote_ba() <= BAL_MAX as int,
        initial_step.in_range(),
        old(metrics).accs_in_range(),
    ensures
        ({
            let step = final(metrics).steps@.last();
            &&& step.price@ == pool.quote_ba()
            &&& step.p_ref@ == pool@.p_ref
            &&& step.balances_a@ == pool@.token_a
            &&& step.balances_b@ == pool@.token_b
            &&& step.ratio@ == s_div(pool@.token_b, pool@.token_a)
            &&& step.in_range()
            &&& final(metrics).steps@ == old(metrics).steps@.push(step)
        }),
        final(metrics).price_volatility@ == old(metrics).price_volatility@ + volatility_spec(
            pool.quote_ba(),
            initial_step.price@,
        ),
        final(metrics).liquidity_depth@ == old(metrics).liquidity_depth@ + depth_spec(
            pool@.token_a,
            pool@.token_b,
        ),
        final(metrics).trading_volume@ == old(metrics).trading_volume@ + volume_spec(
            pool@.token_a,
            pool@.token_b,
            initial_step.balances_a@,
            initial_step.balances_b@,
        ),
        final(metrics).impermanent_loss@ == old(metrics).impermanent_loss@ + il_spec(
            pool@.token_a,
            pool@.token_b,
            initial_step.balances_a@,
            initial_step.balances_b@,
            pool.quote_ba(),
            initial_step.price@,
        ),
        final(metrics).price_volatility@ - old(metrics).price_volatility@ <= STEP_ADD as int,
        final(metrics).liquidity_depth@ - old(metrics).liquidity_depth@ <= STEP_ADD as int,
        final(metrics).trading_volume@ - old(metrics).trading_volume@ <= STEP_ADD as int,
        -(STEP_ADD as int) <= final(metrics).impermanent_loss@ - old(metrics).impermanent_loss@
            <= STEP_ADD as int,
        0 <= final(metrics).price_volatility@ - old(metrics).price_volatility@,
        0 <= final(metrics).liquidity_depth@ - old(metrics).liquidity_depth@,
        0 <= final(metrics).trading_volume@ - old(metrics).trading_volume@,
{
    let (token_a, token_b) = pool.get_balances();
    let current_price = pool.get_price();
    let p_ref = pool.get_p_ref();
    proof {
        lemma_mul_abs_bound(pool@.token_b, SCALE as int, BAL_MAX as int, SCALE as int);
    }
    let ratio = token_b.div(token_a);
    let current_step = PoolMetricsStep {
        price: current_price,
        p_ref,
        balances_a: token_a,
        balances_b: token_b,
        ratio,
    };
    metrics.steps.push(current_step);
    metrics.update_metrics(&current_step, initial_step);
}

/// The distilled judgement of a completed simulation run.
#[derive(Clone, Copy, Debug, PartialEq, Eq, Structural)]
pub struct SimulationAnalysis {
    pub price_stability: Fixed,
    pub average_price_impact: Fixed,
    pub liquidity_efficiency: Fixed,
}

/// Distils a run's result into stability, average price impact and
/// liquidity efficiency.
pub fn analyze_simulation_results(results: &crate::result::SimulationResult) -> (a:
    SimulationAnalysis)
    requires
        results.min_price@ <= METRIC_IN_LIM as int,
        results.max_price@ <= METRIC_IN_LIM as int,
        -(METRIC_IN_LIM as int) <= results.average_liquidity_change@ <= METRIC_IN_LIM as int,
    ensures
        a.price_stability@ == stability_spec(results.min_price@, results.max_price@),
        a.average_price_impact == results.average_price_change,
        a.liquidity_efficiency@ == efficiency_spec(results.average_liquidity_change@),
{
    SimulationAnalysis {
        price_stability: calculate_price_stability(results.min_price, results.max_price),
        average_price_impact: results.average_price_change,
        liquidity_efficiency: calculate_liquidity_efficiency(results.average_liquidity_change),
    }
}

} // verus!
