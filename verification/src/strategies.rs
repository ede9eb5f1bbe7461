//! Trading strategies: the decision rules driven by the simulation.
//!
//! The strategy set is closed, a tagged sum over the random strategy and
//! the mean-reversion strategy, dispatched by pattern match. The two differ
//! deliberately in their failure policy: the random strategy treats a
//! refused swap as an expected outcome of its dice and swallows it, while
//! the mean-reversion strategy surfaces the refusal to its caller.

use vstd::prelude::*;
use crate::fixed::{Fixed, SCALE, s_mul, s_rdiv, div_round, lemma_rdiv_in_range,
    lemma_mul_abs_bound};
use crate::formula::{BAL_MAX, RATIO_MAX};
use crate::pool::{LiquidityPool, PoolError};
use crate::rng::{random_bool, uniform_unit};

verus! {

/// Trades at random: with probability `swap_probability` each step, swaps a
/// uniformly drawn amount, at most `max_swap_amount` and at most half of
/// the giving side's balance, in a randomly chosen direction.
#[derive(Clone, Copy, Debug)]
pub struct RandomStrategy {
    pub swap_probability: Fixed,
    pub max_swap_amount: Fixed,
}

impl RandomStrategy {
    /// The strategy's own invariant: a non-negative swap cap within the
    /// model's balance range.
    pub open spec fn wf(&self) -> bool {
        0 <= self.max_swap_amount@ <= BAL_MAX as int
    }

    /// Builds the strategy from a swap probability (a fraction of one) and
    /// the largest amount one swap may move.
    pub fn new(swap_probability: Fixed, max_swap_amount: Fixed) -> (s: RandomStrategy)
        requires
            0 <= max_swap_amount@ <= BAL_MAX as int,
        ensures
            s.swap_probability == swap_probability,
            s.max_swap_amount == max_swap_amount,
            s.wf(),
    {
        RandomStrategy { swap_probability, max_swap_amount }
    }
}

/// Trades against deviations: swaps a fixed amount towards the reference
/// price whenever the observed price leaves the threshold band around it.
#[derive(Clone, Copy, Debug)]
pub struct MeanReversionStrategy {
    pub swap_threshold: Fixed,
    pub swap_amount: Fixed,
}

impl MeanReversionStrategy {
    /// The strategy's own invariant: non-negative parameters within the
    /// model's balance range.
    pub open spec fn wf(&self) -> bool {
        &&& 0 <= self.swap_threshold@ <= BAL_MAX as int
        &&& 0 <= self.swap_amount@ <= BAL_MAX as int
    }

    /// Builds the strategy from its deviation threshold and fixed swap
    /// amount.
    pub fn new(swap_threshold: Fixed, swap_amount: Fixed) -> (s: MeanReversionStrategy)
        requires
            0 <= swap_threshold@ <= BAL_MAX as int,
            0 <= swap_amount@ <= BAL_MAX as int,
        ensures
            s.swap_threshold == swap_threshold,
            s.swap_amount == swap_amount,
            s.wf(),
    {
        MeanReversionStrategy { swap_threshold, swap_amount }
    }
}

/// The closed set of trading strategies.
#[derive(Clone, Copy, Debug)]
pub enum TradingStrategy {
    Random(RandomStrategy),
    MeanReversion(MeanReversionStrategy),
}

/// Whether a swap of A for B of this amount meets every condition the pool
/// asks of it: a positive amount within the A balance that keeps the
/// balance in range, with a quotable ratio.
pub open spec fn a_swap_admissible(pool: &LiquidityPool, amount: int) -> bool {
    &&& 0 < amount <= pool@.token_a
    &&& pool.can_quote_ab()
    &&& pool@.token_a + amount <= BAL_MAX as int
}

/// The mirror condition for a swap of B for A.
pub open spec fn b_swap_admissible(pool: &LiquidityPool, amount: int) -> bool {
    &&& 0 < amount <= pool@.token_b
    &&& pool.can_quote_ba()
    &&& pool@.token_b + amount <= BAL_MAX as int
}

/// The exact effect of one executed swap of A for B of `amt`: the swap was
/// admissible, delivered a positive amount within the B balance, and moved
/// the balances by exactly the swap equations at the pre-state's quote.
pub open spec fn a_swap_effect(pre: LiquidityPool, post: LiquidityPool, amt: int) -> bool {
    &&& a_swap_admissible(&pre, amt)
    &&& 0 < s_mul(pre.quote_ab(), amt) <= pre@.token_b
    &&& post@.token_a == pre@.token_a + amt
    &&& post@.token_b == pre@.token_b - s_mul(pre.quote_ab(), amt)
}

/// The mirror effect for one executed swap of B for A.
pub open spec fn b_swap_effect(pre: LiquidityPool, post: LiquidityPool, amt: int) -> bool {
    &&& b_swap_admissible(&pre, amt)
    &&& 0 < s_mul(pre.quote_ba(), amt) <= pre@.token_a
    &&& post@.token_b == pre@.token_b + amt
    &&& post@.token_a == pre@.token_a - s_mul(pre.quote_ba(), amt)
}

/// Attempts a swap of A for B, treating any refusal, and an amount the
/// pool cannot even quote, as an ignorable outcome: the pool either stands
/// unchanged or underwent exactly that swap.
fn try_swap_a_to_b(pool: &mut LiquidityPool, amount: Fixed)
    requires
        old(pool).wf(),
    ensures
        final(pool).wf(),
        final(pool)@.p_ref == old(pool)@.p_ref,
        final(pool)@.alpha == old(pool)@.alpha,
        final(pool)@.beta == old(pool)@.beta,
        *final(pool) == *old(pool) || a_swap_effect(*old(pool), *final(pool), amount@),
{
    let (balance_a, balance_b) = pool.get_balances();
    if amount.units <= 0 || amount.units > balance_a.units {
        return;
    }
    if balance_a.units + amount.units > BAL_MAX {
        return;
    }
    proof {
        lemma_mul_abs_bound(pool@.token_b, SCALE as int, BAL_MAX as int, SCALE as int);
    }
    let r = balance_b.div(balance_a);
    if r.units <= 0 || r.units > RATIO_MAX {
        return;
    }
    let _ = pool.swap_a_to_b(amount);
}

/// Attempts a swap of B for A under the same tolerant policy.
fn try_swap_b_to_a(pool: &mut LiquidityPool, amount: Fixed)
    requires
        old(pool).wf(),
    ensures
        final(pool).wf(),
        final(pool)@.p_ref == old(pool)@.p_ref,
        final(pool)@.alpha == old(pool)@.alpha,
        final(pool)@.beta == old(pool)@.beta,
        *final(pool) == *old(pool) || b_swap_effect(*old(pool), *final(pool), amount@),
{
    let (balance_a, balance_b) = pool.get_balances();
    if amount.units <= 0 || amount.units > balance_b.units {
        return;
    }
    if balance_b.units + amount.units > BAL_MAX {
        return;
    }
    proof {
        lemma_mul_abs_bound(pool@.token_a, SCALE as int, BAL_MAX as int, SCALE as int);
    }
    let r = balance_a.div(balance_b);
    if r.units <= 0 || r.units > RATIO_MAX {
        return;
    }
    let _ = pool.swap_b_to_a(amount);
}

impl TradingStrategy {
    /// The invariant of whichever strategy this is.
    pub open spec fn wf(&self) -> bool {
        match self {
            TradingStrategy::Random(s) => s.wf(),
            TradingStrategy::MeanReversion(s) => s.wf(),
        }
    }

    /// Runs one step of the strategy against the pool at the observed
    /// price. The random strategy always reports success, whatever its
    /// dice and the pool decided; whatever the dice, the pool either
    /// stands unchanged or underwent exactly one admissible swap of an
    /// amount within the strategy's cap and half the giving balance, and a
    /// swap probability of zero or less never moves it at all. The
    /// mean-reversion strategy reports the pool's refusal when its
    /// triggered swap is refused, and does nothing inside the threshold
    /// band.
    pub fn execute(&self, pool: &mut LiquidityPool, current_price: Fixed) -> (res: Result<
        (),
        PoolError,
    >)
        requires
            old(pool).wf(),
            self.wf(),
        ensures
            final(pool).wf(),
            final(pool)@.p_ref == old(pool)@.p_ref,
            final(pool)@.alpha == old(pool)@.alpha,
            final(pool)@.beta == old(pool)@.beta,
            match self {
                TradingStrategy::Random(s) => {
                    &&& res is Ok
                    &&& (s.swap_probability@ <= 0 ==> *final(pool) == *old(pool))
                    &&& (*final(pool) == *old(pool) || (exists|amt: int|
                        #[trigger] a_swap_effect(*old(pool), *final(pool), amt) && amt
                            <= s.max_swap_amount@ && amt <= s_rdiv(old(pool)@.token_a, 2))
                        || (exists|amt: int|
                        #[trigger] b_swap_effect(*old(pool), *final(pool), amt) && amt
                            <= s.max_swap_amount@ && amt <= s_rdiv(old(pool)@.token_b, 2)))
                },
                TradingStrategy::MeanReversion(s) => {
                    let p_ref = old(pool)@.p_ref;
                    let t = s.swap_threshold@;
                    let amt = s.swap_amount@;
                    &&& (p_ref - t <= current_price@ <= p_ref + t ==> res is Ok && *final(pool)
                        == *old(pool))
                    &&& (current_price@ > p_ref + t ==> match res {
                        Ok(()) => b_swap_admissible(old(pool), amt) && 0 < s_mul(
                            old(pool).quote_ba(),
                            amt,
                        ) <= old(pool)@.token_a && final(pool)@.token_b == old(pool)@.token_b + amt
                            && final(pool)@.token_a == old(pool)@.token_a - s_mul(
                            old(pool).quote_ba(),
                            amt,
                        ),
                        Err(PoolError::InvalidAmount) => amt <= 0 && *final(pool) == *old(pool),
                        Err(PoolError::InsufficientLiquidity) => amt > 0 && *final(pool) == *old(
                            pool,
                        ) && (!b_swap_admissible(old(pool), amt) || s_mul(old(pool).quote_ba(), amt)
                            <= 0 || s_mul(old(pool).quote_ba(), amt) > old(pool)@.token_a),
                    })
                    &&& (current_price@ < p_ref - t ==> match res {
                        Ok(()) => a_swap_admissible(old(pool), amt) && 0 < s_mul(
                            old(pool).quote_ab(),
                            amt,
                        ) <= old(pool)@.token_b && final(pool)@.token_a == old(pool)@.token_a + amt
                            && final(pool)@.token_b == old(pool)@.token_b - s_mul(
                            old(pool).quote_ab(),
                            amt,
                        ),
                        Err(PoolError::InvalidAmount) => amt <= 0 && *final(pool) == *old(pool),
                        Err(PoolError::InsufficientLiquidity) => amt > 0 && *final(pool) == *old(
                            pool,
                        ) && (!a_swap_admissible(old(pool), amt) || s_mul(old(pool).quote_ab(), amt)
                            <= 0 || s_mul(old(pool).quote_ab(), amt) > old(pool)@.token_b),
                    })
                },
            },
    {
        match self {
            TradingStrategy::Random(s) => {
                let roll = uniform_unit();
                if roll.units < s.swap_probability.units {
                    let (balance_a, balance_b) = pool.get_balances();
                    proof {
                        lemma_rdiv_in_range(balance_a@, 2);
                        lemma_rdiv_in_range(balance_b@, 2);
                    }
                    let half_a = Fixed { units: div_round(balance_a.units, 2) };
                    let half_b = Fixed { units: div_round(balance_b.units, 2) };
                    let cap_a = half_a.min(s.max_swap_amount);
                    let cap_b = half_b.min(s.max_swap_amount);
                    let draw = uniform_unit();
                    proof {
                        lemma_mul_abs_bound(
                            draw@,
                            s.max_swap_amount@,
                            SCALE as int,
                            BAL_MAX as int,
                        );
                    }
                    let amount = draw.mul(s.max_swap_amount);
                    if random_bool() {
                        let chosen = amount.min(cap_a);
                        try_swap_a_to_b(pool, chosen);
                        proof {
                            assert(chosen@ <= s.max_swap_amount@ && chosen@ <= s_rdiv(
                                old(pool)@.token_a,
                                2,
                            ));
                        }
                    } else {
                        let chosen = amount.min(cap_b);
                        try_swap_b_to_a(pool, chosen);
                        proof {
                            assert(chosen@ <= s.max_swap_amount@ && chosen@ <= s_rdiv(
                                old(pool)@.token_b,
                                2,
                            ));
                        }
                    }
                }
                Ok(())
            },
            TradingStrategy::MeanReversion(s) => {
                let p_ref = pool.get_p_ref();
                if current_price.units > p_ref.units + s.swap_threshold.units {
                    match checked_swap_b_to_a(pool, s.swap_amount) {
                        Ok(_) => Ok(()),
                        Err(e) => Err(e),
                    }
                } else if current_price.units < p_ref.units - s.swap_threshold.units {
                    match checked_swap_a_to_b(pool, s.swap_amount) {
                        Ok(_) => Ok(()),
                        Err(e) => Err(e),
                    }
                } else {
                    Ok(())
                }
            },
        }
    }
}

/// A swap of A for B whose model-range conditions are tested first: where
/// the pool could not even quote the swap, the refusal is reported as
/// insufficient liquidity.
fn checked_swap_a_to_b(pool: &mut LiquidityPool, amount: Fixed) -> (res: Result<Fixed, PoolError>)
    requires
        old(pool).wf(),
    ensures
        final(pool).wf(),
        final(pool)@.p_ref == old(pool)@.p_ref,
        final(pool)@.alpha == old(pool)@.alpha,
        final(pool)@.beta == old(pool)@.beta,
        match res {
            Ok(got) => a_swap_admissible(old(pool), amount@) && got@ == s_mul(
                old(pool).quote_ab(),
                amount@,
            ) && 0 < got@ <= old(pool)@.token_b && final(pool)@.token_a == old(pool)@.token_a
                + amount@ && final(pool)@.token_b == old(pool)@.token_b - got@,
            Err(PoolError::InvalidAmount) => amount@ <= 0 && *final(pool) == *old(pool),
            Err(PoolError::InsufficientLiquidity) => amount@ > 0 && *final(pool) == *old(pool) && (
            !a_swap_admissible(old(pool), amount@) || s_mul(old(pool).quote_ab(), amount@) <= 0
                || s_mul(old(pool).quote_ab(), amount@) > old(pool)@.token_b),
        },
{
    if amount.units <= 0 {
        return Err(PoolError::InvalidAmount);
    }
    let (balance_a, balance_b) = pool.get_balances();
    if amount.units > balance_a.units {
        return Err(PoolError::InsufficientLiquidity);
    }
    if balance_a.units + amount.units > BAL_MAX {
        return Err(PoolError::InsufficientLiquidity);
    }
    proof {
        lemma_mul_abs_bound(pool@.token_b, SCALE as int, BAL_MAX as int, SCALE as int);
    }
    let r = balance_b.div(balance_a);
    if r.units <= 0 || r.units > RATIO_MAX {
        return Err(PoolError::InsufficientLiquidity);
    }
    pool.swap_a_to_b(amount)
}

/// The mirror of `checked_swap_a_to_b` for a swap of B for A.
fn checked_swap_b_to_a(pool: &mut LiquidityPool, amount: Fixed) -> (res: Result<Fixed, PoolError>)
    requires
        old(pool).wf(),
    ensures
        final(pool).wf(),
        final(pool)@.p_ref == old(pool)@.p_ref,
        final(pool)@.alpha == old(pool)@.alpha,
        final(pool)@.beta == old(pool)@.beta,
        match res {
            Ok(got) => b_swap_admissible(old(pool), amount@) && got@ == s_mul(
                old(pool).quote_ba(),
                amount@,
            ) && 0 < got@ <= old(pool)@.token_a && final(pool)@.token_b == old(pool)@.token_b
                + amount@ && final(pool)@.token_a == old(pool)@.token_a - got@,
            Err(PoolError::InvalidAmount) => amount@ <= 0 && *final(pool) == *old(pool),
            Err(PoolError::InsufficientLiquidity) => amount@ > 0 && *final(pool) == *old(pool) && (
            !b_swap_admissible(old(pool), amount@) || s_mul(old(pool).quote_ba(), amount@) <= 0
                || s_mul(old(pool).quote_ba(), amount@) > old(pool)@.token_a),
        },
{
    if amount.units <= 0 {
        return Err(PoolError::InvalidAmount);
    }
    let (balance_a, balance_b) = pool.get_balances();
    if amount.units > balance_b.units {
        return Err(PoolError::InsufficientLiquidity);
    }
    if balance_b.units + amount.units > BAL_MAX {
        return Err(PoolError::InsufficientLiquidity);
    }
    proof {
        lemma_mul_abs_bound(pool@.token_a, SCALE as int, BAL_MAX as int, SCALE as int);
    }
    let r = balance_a.div(balance_b);
    if r.units <= 0 || r.units > RATIO_MAX {
        return Err(PoolError::InsufficientLiquidity);
    }
    pool.swap_b_to_a(amount)
}

} // verus!
