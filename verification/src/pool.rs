//! The liquidity pool: two token balances, a reference price and the two
//! curve parameters, with swap and liquidity operations priced through the
//! adjusted-reference-price curve.

use vstd::prelude::*;
use crate::fixed::{Fixed, SCALE, s_mul, s_div, lemma_rdiv_in_range, lemma_rdiv_huge,
    lemma_mul_abs_bound};
use crate::formula::{arpp, price_spec, BAL_MAX, PARAM_MAX, RATIO_MAX, PRICE_LIM};
use crate::random_walk::{random_walk_price, walk_fixed_point, MIN_PRICE};

verus! {

/// Why a pool operation was refused: a non-positive amount, or a request
/// that would overdraw one of the balances (a swap whose output exceeds the
/// available counter-balance falls under the second).
#[derive(Clone, Copy, Debug, PartialEq, Eq, Structural)]
pub enum PoolError {
    InvalidAmount,
    InsufficientLiquidity,
}

/// The abstract state of a pool: balances, reference price and curve
/// parameters, as plain integers in units.
pub struct PoolView {
    pub token_a: int,
    pub token_b: int,
    pub p_ref: int,
    pub alpha: int,
    pub beta: int,
}

/// A pool of two tokens priced by the adjusted-reference-price curve.
#[derive(Clone, Copy, Debug)]
pub struct LiquidityPool {
    token_a: Fixed,
    token_b: Fixed,
    p_ref: Fixed,
    alpha: Fixed,
    beta: Fixed,
}

impl View for LiquidityPool {
    type V = PoolView;

    closed spec fn view(&self) -> PoolView {
        PoolView {
            token_a: self.token_a@,
            token_b: self.token_b@,
            p_ref: self.p_ref@,
            alpha: self.alpha@,
            beta: self.beta@,
        }
    }
}

impl LiquidityPool {
    /// The pool's invariant: balances are non-negative and within the
    /// model's range, the reference price is positive and the curve
    /// parameters are non-negative.
    pub open spec fn wf(&self) -> bool {
        &&& 0 <= self@.token_a <= BAL_MAX as int
        &&& 0 <= self@.token_b <= BAL_MAX as int
        &&& 0 < self@.p_ref <= BAL_MAX as int
        &&& 0 <= self@.alpha <= PARAM_MAX as int
        &&& 0 <= self@.beta <= PARAM_MAX as int
    }

    /// The imbalance ratio used to quote a swap of A for B:
    /// `token_b / token_a`.
    pub open spec fn ratio_ab(&self) -> int {
        s_div(self@.token_b, self@.token_a)
    }

    /// The imbalance ratio used to quote a swap of B for A and the pool's
    /// own price reading: `token_a / token_b`.
    pub open spec fn ratio_ba(&self) -> int {
        s_div(self@.token_a, self@.token_b)
    }

    /// Whether the A-to-B quote is defined: the divisor is positive and the
    /// ratio lands in the curve's admitted band.
    pub open spec fn can_quote_ab(&self) -> bool {
        self@.token_a > 0 && 0 < self.ratio_ab() <= RATIO_MAX as int
    }

    /// Whether the B-to-A quote (also the pool's price reading) is defined.
    pub open spec fn can_quote_ba(&self) -> bool {
        self@.token_b > 0 && 0 < self.ratio_ba() <= RATIO_MAX as int
    }

    /// The quoted price for a swap of A for B.
    pub open spec fn quote_ab(&self) -> int {
        price_spec(self@.p_ref, self@.alpha, self@.beta, self.ratio_ab())
    }

    /// The quoted price for a swap of B for A, and what `get_price`
    /// returns.
    pub open spec fn quote_ba(&self) -> int {
        price_spec(self@.p_ref, self@.alpha, self@.beta, self.ratio_ba())
    }

    /// Builds a pool from initial balances, reference price and curve
    /// parameters.
    pub fn new(token_a: Fixed, token_b: Fixed, p_ref: Fixed, alpha: Fixed, beta: Fixed) -> (pool:
        LiquidityPool)
        requires
            0 <= token_a@ <= BAL_MAX as int,
            0 <= token_b@ <= BAL_MAX as int,
            0 < p_ref@ <= BAL_MAX as int,
            0 <= alpha@ <= PARAM_MAX as int,
            0 <= beta@ <= PARAM_MAX as int,
        ensures
            pool.wf(),
            pool@.token_a == token_a@,
            pool@.token_b == token_b@,
            pool@.p_ref == p_ref@,
            pool@.alpha == alpha@,
            pool@.beta == beta@,
    {
        LiquidityPool { token_a, token_b, p_ref, alpha, beta }
    }

    /// Adds the given amounts to both balances. Fails with `InvalidAmount`,
    /// and leaves the pool unchanged, exactly when either amount is not
    /// strictly positive.
    pub fn add_liquidity(&mut self, amount_a: Fixed, amount_b: Fixed) -> (res: Result<
        (),
        PoolError,
    >)
        requires
            old(self).wf(),
            amount_a@ > 0 && amount_b@ > 0 ==> old(self)@.token_a + amount_a@ <= BAL_MAX as int
                && old(self)@.token_b + amount_b@ <= BAL_MAX as int,
        ensures
            final(self).wf(),
            final(self)@.p_ref == old(self)@.p_ref,
            final(self)@.alpha == old(self)@.alpha,
            final(self)@.beta == old(self)@.beta,
            match res {
                Ok(()) => amount_a@ > 0 && amount_b@ > 0 && final(self)@.token_a == old(
                    self,
                )@.token_a + amount_a@ && final(self)@.token_b == old(self)@.token_b + amount_b@,
                Err(PoolError::InvalidAmount) => (amount_a@ <= 0 || amount_b@ <= 0) && *final(self)
                    == *old(self),
                Err(PoolError::InsufficientLiquidity) => false,
            },
    {
        if amount_a.units <= 0 || amount_b.units <= 0 {
            return Err(PoolError::InvalidAmount);
        }
        self.token_a = self.token_a.add(amount_a);
        self.token_b = self.token_b.add(amount_b);
        Ok(())
    }

    /// Removes the given amounts from both balances. Fails with
    /// `InvalidAmount` exactly when either amount is not strictly positive,
    /// and otherwise with `InsufficientLiquidity` exactly when either
    /// amount exceeds its balance; a failing call leaves the pool
    /// unchanged.
    pub fn remove_liquidity(&mut self, amount_a: Fixed, amount_b: Fixed) -> (res: Result<
        (),
        PoolError,
    >)
        requires
            old(self).wf(),
        ensures
            final(self).wf(),
            final(self)@.p_ref == old(self)@.p_ref,
            final(self)@.alpha == old(self)@.alpha,
            final(self)@.beta == old(self)@.beta,
            match res {
                Ok(()) => amount_a@ > 0 && amount_b@ > 0 && amount_a@ <= old(self)@.token_a
                    && amount_b@ <= old(self)@.token_b && final(self)@.token_a == old(
                    self,
                )@.token_a - amount_a@ && final(self)@.token_b == old(self)@.token_b - amount_b@,
                Err(PoolError::InvalidAmount) => (amount_a@ <= 0 || amount_b@ <= 0) && *final(self)
                    == *old(self),
                Err(PoolError::InsufficientLiquidity) => amount_a@ > 0 && amount_b@ > 0 && (
                amount_a@ > old(self)@.token_a || amount_b@ > old(self)@.token_b) && *final(self)
                    == *old(self),
            },
    {
        if amount_a.units <= 0 || amount_b.units <= 0 {
            return Err(PoolError::InvalidAmount);
        }
        if amount_a.units > self.token_a.units || amount_b.units > self.token_b.units {
            return Err(PoolError::InsufficientLiquidity);
        }
        self.token_a = self.token_a.sub(amount_a);
        self.token_b = self.token_b.sub(amount_b);
        Ok(())
    }

    /// Swaps an amount of token A for token B at the quoted price: the
    /// amount of B delivered is `amount_a * quote_ab`. Fails with
    /// `InvalidAmount` exactly when the amount is not strictly positive,
    /// and with `InsufficientLiquidity` exactly when the amount exceeds the
    /// A balance or the delivered amount would be non-positive or overdraw
    /// the B balance; a failing call leaves the pool unchanged.
    pub fn swap_a_to_b(&mut self, amount_a: Fixed) -> (res: Result<Fixed, PoolError>)
        requires
            old(self).wf(),
            0 < amount_a@ <= old(self)@.token_a ==> old(self).can_quote_ab() && old(self)@.token_a
                + amount_a@ <= BAL_MAX as int,
        ensures
            final(self).wf(),
            final(self)@.p_ref == old(self)@.p_ref,
            final(self)@.alpha == old(self)@.alpha,
            final(self)@.beta == old(self)@.beta,
            match res {
                Ok(got) => 0 < amount_a@ <= old(self)@.token_a && got@ == s_mul(
                    old(self).quote_ab(),
                    amount_a@,
                ) && 0 < got@ <= old(self)@.token_b && final(self)@.token_a == old(self)@.token_a
                    + amount_a@ && final(self)@.token_b == old(self)@.token_b - got@,
                Err(PoolError::InvalidAmount) => amount_a@ <= 0 && *final(self) == *old(self),
                Err(PoolError::InsufficientLiquidity) => amount_a@ > 0 && (amount_a@ > old(
                    self,
                )@.token_a || s_mul(old(self).quote_ab(), amount_a@) <= 0 || s_mul(
                    old(self).quote_ab(),
                    amount_a@,
                ) > old(self)@.token_b) && *final(self) == *old(self),
            },
    {
        if amount_a.units <= 0 {
            return Err(PoolError::InvalidAmount);
        }
        if amount_a.units > self.token_a.units {
            return Err(PoolError::InsufficientLiquidity);
        }
        proof {
            lemma_mul_abs_bound(self@.token_b, SCALE as int, BAL_MAX as int, SCALE as int);
        }
        let r = self.token_b.div(self.token_a);
        let price = arpp(self.p_ref, self.alpha, self.beta, r);
        let amount_b = match price.mul_checked(amount_a) {
            Some(v) => v,
            None => {
                proof {
                    lemma_swap_overflow_overdraws(price@, amount_a@, self@.token_b);
                }
                return Err(PoolError::InsufficientLiquidity);
            },
        };
        if amount_b.units <= 0 || amount_b.units > self.token_b.units {
            return Err(PoolError::InsufficientLiquidity);
        }
        self.token_a = self.token_a.add(amount_a);
        self.token_b = self.token_b.sub(amount_b);
        Ok(amount_b)
    }

    /// Swaps an amount of token B for token A at the quoted price: the
    /// amount of A delivered is `amount_b * quote_ba`. Failure cases mirror
    /// `swap_a_to_b` with the sides exchanged.
    pub fn swap_b_to_a(&mut self, amount_b: Fixed) -> (res: Result<Fixed, PoolError>)
        requires
            old(self).wf(),
            0 < amount_b@ <= old(self)@.token_b ==> old(self).can_quote_ba() && old(self)@.token_b
                + amount_b@ <= BAL_MAX as int,
        ensures
            final(self).wf(),
            final(self)@.p_ref == old(self)@.p_ref,
            final(self)@.alpha == old(self)@.alpha,
            final(self)@.beta == old(self)@.beta,
            match res {
                Ok(got) => 0 < amount_b@ <= old(self)@.token_b && got@ == s_mul(
                    old(self).quote_ba(),
                    amount_b@,
                ) && 0 < got@ <= old(self)@.token_a && final(self)@.token_b == old(self)@.token_b
                    + amount_b@ && final(self)@.token_a == old(self)@.token_a - got@,
                Err(PoolError::InvalidAmount) => amount_b@ <= 0 && *final(self) == *old(self),
                Err(PoolError::InsufficientLiquidity) => amount_b@ > 0 && (amount_b@ > old(
                    self,
                )@.token_b || s_mul(old(self).quote_ba(), amount_b@) <= 0 || s_mul(
                    old(self).quote_ba(),
                    amount_b@,
                ) > old(self)@.token_a) && *final(self) == *old(self),
            },
    {
        if amount_b.units <= 0 {
            return Err(PoolError::InvalidAmount);
        }
        if amount_b.units > self.token_b.units {
            return Err(PoolError::InsufficientLiquidity);
        }
        proof {
            lemma_mul_abs_bound(self@.token_a, SCALE as int, BAL_MAX as int, SCALE as int);
        }
        let r = self.token_a.div(self.token_b);
        let price = arpp(self.p_ref, self.alpha, self.beta, r);
        let amount_a = match price.mul_checked(amount_b) {
            Some(v) => v,
            None => {
                proof {
                    lemma_swap_overflow_overdraws(price@, amount_b@, self@.token_a);
                }
                return Err(PoolError::InsufficientLiquidity);
            },
        };
        if amount_a.units <= 0 || amount_a.units > self.token_a.units {
            return Err(PoolError::InsufficientLiquidity);
        }
        self.token_b = self.token_b.add(amount_b);
        self.token_a = self.token_a.sub(amount_a);
        Ok(amount_a)
    }

    /// The current quote from the current balances and reference price.
    pub fn get_price(&self) -> (price: Fixed)
        requires
            self.wf(),
            self.can_quote_ba(),
        ensures
            price@ == self.quote_ba(),
            -(PRICE_LIM as int) < price@ < PRICE_LIM as int,
    {
        proof {
            lemma_mul_abs_bound(self@.token_a, SCALE as int, BAL_MAX as int, SCALE as int);
        }
        let r = self.token_a.div(self.token_b);
        arpp(self.p_ref, self.alpha, self.beta, r)
    }

    /// Replaces the reference price by one step of the bounded random walk;
    /// the two parameters control the walk's variance, not the curve shape.
    /// With both at zero the reference price is unchanged exactly.
    pub fn set_p_ref(&mut self, alpha: Fixed, beta: Fixed)
        requires
            old(self).wf(),
            0 <= alpha@ <= BAL_MAX as int,
            0 <= beta@ <= BAL_MAX as int,
        ensures
            final(self).wf(),
            final(self)@.token_a == old(self)@.token_a,
            final(self)@.token_b == old(self)@.token_b,
            final(self)@.alpha == old(self)@.alpha,
            final(self)@.beta == old(self)@.beta,
            MIN_PRICE as int <= final(self)@.p_ref <= BAL_MAX as int,
            alpha@ == 0 && beta@ == 0 ==> final(self)@.p_ref == walk_fixed_point(
                old(self)@.p_ref,
            ),
    {
        self.p_ref = random_walk_price(self.p_ref, alpha, beta);
    }

    /// The current quote, where one is defined: `None` exactly when the
    /// pool cannot be priced (an empty B balance, or a ratio outside the
    /// curve's admitted band).
    pub fn try_get_price(&self) -> (res: Option<Fixed>)
        requires
            self.wf(),
        ensures
            match res {
                Some(price) => self.can_quote_ba() && price@ == self.quote_ba() && -(PRICE_LIM
                    as int) < price@ < PRICE_LIM as int,
                None => !self.can_quote_ba(),
            },
    {
        if self.token_b.units <= 0 {
            return None;
        }
        proof {
            lemma_mul_abs_bound(self@.token_a, SCALE as int, BAL_MAX as int, SCALE as int);
        }
        let r = self.token_a.div(self.token_b);
        if r.units <= 0 || r.units > RATIO_MAX {
            return None;
        }
        Some(arpp(self.p_ref, self.alpha, self.beta, r))
    }

    /// Credits the A balance, for the simulation's rebalancing valve.
    pub(crate) fn credit_a(&mut self, amount: Fixed)
        requires
            old(self).wf(),
            0 <= amount@,
            old(self)@.token_a + amount@ <= BAL_MAX as int,
        ensures
            final(self).wf(),
            final(self)@.token_a == old(self)@.token_a + amount@,
            final(self)@.token_b == old(self)@.token_b,
            final(self)@.p_ref == old(self)@.p_ref,
            final(self)@.alpha == old(self)@.alpha,
            final(self)@.beta == old(self)@.beta,
    {
        self.token_a = self.token_a.add(amount);
    }

    /// Credits the B balance, for the simulation's rebalancing valve.
    pub(crate) fn credit_b(&mut self, amount: Fixed)
        requires
            old(self).wf(),
            0 <= amount@,
            old(self)@.token_b + amount@ <= BAL_MAX as int,
        ensures
            final(self).wf(),
            final(self)@.token_b == old(self)@.token_b + amount@,
            final(self)@.token_a == old(self)@.token_a,
            final(self)@.p_ref == old(self)@.p_ref,
            final(self)@.alpha == old(self)@.alpha,
            final(self)@.beta == old(self)@.beta,
    {
        self.token_b = self.token_b.add(amount);
    }

    /// The current reference price.
    pub fn get_p_ref(&self) -> (p: Fixed)
        ensures
            p@ == self@.p_ref,
    {
        self.p_ref
    }

    /// The current balances of token A and token B.
    pub fn get_balances(&self) -> (r: (Fixed, Fixed))
        ensures
            r.0@ == self@.token_a,
            r.1@ == self@.token_b,
    {
        (self.token_a, self.token_b)
    }

    /// The curve parameters, fixed at construction.
    pub fn get_params(&self) -> (r: (Fixed, Fixed))
        ensures
            r.0@ == self@.alpha,
            r.1@ == self@.beta,
    {
        (self.alpha, self.beta)
    }
}

/// When the product of price and amount leaves the machine word, the
/// amount the swap would deliver is far beyond any balance the model
/// admits (or non-positive), so refusing the swap for want of liquidity is
/// exact.
proof fn lemma_swap_overflow_overdraws(price: int, amount: int, balance: int)
    requires
        price * amount > i128::MAX || price * amount <= i128::MIN,
        0 <= balance <= BAL_MAX as int,
    ensures
        s_mul(price, amount) <= 0 || s_mul(price, amount) > balance,
{
    let p = price * amount;
    if p > i128::MAX {
        assert(((BAL_MAX as int) + 1) * (SCALE as int) <= i128::MAX as int) by (nonlinear_arith);
        lemma_rdiv_huge(p, SCALE as int, (BAL_MAX as int) + 1);
    } else {
        lemma_rdiv_in_range(p, SCALE as int);
    }
}

} // verus!
