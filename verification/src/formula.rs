//! The adjusted-reference-price curve.
//!
//! The quoted price is `p_ref * (1 + alpha * atan(beta * (r - 1)))`: a
//! smooth, bounded function of the pool imbalance ratio `r`. Because the
//! arctangent saturates, the multiplier stays within `1 +/- alpha * pi/2`
//! however extreme the imbalance.

use vstd::prelude::*;
use crate::fixed::{Fixed, SCALE, s_mul, s_rdiv, lemma_mul_one, lemma_mul_odd, lemma_mul_abs_bound,
    lemma_rdiv_mag, lemma_rdiv_mono, lemma_rdiv_odd, lemma_rdiv_in_range};
use crate::trig::{atan_fixed, atan_units, ATAN_LIM, lemma_atan_units_odd};

verus! {

/// Largest balance (and reference price) the pool model admits, in units:
/// ten million whole tokens.
pub const BAL_MAX: i128 = 10_000_000_000_000_000_000;

/// Largest curve parameter (`alpha` or `beta`) the model admits, in units:
/// one thousand.
pub const PARAM_MAX: i128 = 1_000_000_000_000_000;

/// Largest imbalance ratio the model admits, in units.
pub const RATIO_MAX: i128 = 100_000_000_000_000_000_000_000;

/// Every quoted price fits well within this magnitude.
pub const PRICE_LIM: i128 = 20_000_000_000_000_000_000_000;

/// The quoted price as a mathematical function of reference price, curve
/// parameters and imbalance ratio, all in units: `p_ref` plus the product
/// `p_ref * alpha * atan(beta * (r - 1))` evaluated in rounded fixed-point
/// arithmetic.
pub open spec fn price_spec(p_ref: int, alpha: int, beta: int, r: int) -> int {
    p_ref + s_mul(s_mul(p_ref, alpha), atan_units(s_mul(beta, r - SCALE)))
}

/// Computes the adjusted reference price for imbalance ratio `r`.
pub fn arpp(p_ref: Fixed, alpha: Fixed, beta: Fixed, r: Fixed) -> (price: Fixed)
    requires
        0 < p_ref@ <= BAL_MAX as int,
        0 <= alpha@ <= PARAM_MAX as int,
        0 <= beta@ <= PARAM_MAX as int,
        0 < r@ <= RATIO_MAX as int,
    ensures
        price@ == price_spec(p_ref@, alpha@, beta@, r@),
        -(PRICE_LIM as int) < price@ < PRICE_LIM as int,
        r@ == SCALE as int ==> price@ == p_ref@,
        alpha@ == 0 ==> price@ == p_ref@,
{
    let diff = r.sub(Fixed::one());
    proof {
        lemma_mul_abs_bound(beta@, diff@, PARAM_MAX as int, RATIO_MAX as int + SCALE as int);
    }
    let angle = beta.mul(diff);
    let at = atan_fixed(angle);
    proof {
        lemma_mul_abs_bound(p_ref@, alpha@, BAL_MAX as int, PARAM_MAX as int);
    }
    let pa = p_ref.mul(alpha);
    proof {
        lemma_rdiv_mag(p_ref@ * alpha@, SCALE as int, 10_000_000_000_000_000_000_000int);
        lemma_mul_abs_bound(pa@, at@, 10_000_000_000_000_000_000_000int, ATAN_LIM as int);
    }
    let term = pa.mul(at);
    proof {
        lemma_rdiv_mag(
            pa@ * at@,
            SCALE as int,
            10_000_000_000_000_000_000_000int * (ATAN_LIM as int) / (SCALE as int) + 1,
        );
        if r@ == SCALE as int {
            lemma_mul_one(beta@);
            lemma_mul_one(pa@);
        }
        if alpha@ == 0 {
            lemma_mul_one(p_ref@);
            lemma_mul_one(at@);
        }
    }
    p_ref.add(term)
}

/// The widest deviation from the reference price the curve can quote for
/// given reference price and curvature weight: `p_ref * alpha * pi/2` in
/// rounded fixed-point arithmetic.
pub open spec fn curve_cap(p_ref: int, alpha: int) -> int {
    s_rdiv(s_mul(p_ref, alpha) * (ATAN_LIM as int), SCALE as int)
}

/// Bounded curvature, the design's central guarantee: however extreme the
/// imbalance ratio, the quoted price stays within `p_ref * alpha * pi/2`
/// of the reference price, because the arctangent saturates.
pub proof fn lemma_price_bounded(p_ref: int, alpha: int, beta: int, r: int)
    requires
        0 <= p_ref,
        0 <= alpha,
    ensures
        p_ref - curve_cap(p_ref, alpha) <= price_spec(p_ref, alpha, beta, r) <= p_ref + curve_cap(
            p_ref,
            alpha,
        ),
{
    let at = atan_units(s_mul(beta, r - SCALE));
    let pa = s_mul(p_ref, alpha);
    crate::trig::lemma_atan_units_bounded(s_mul(beta, r - SCALE));
    lemma_mul_nonneg(p_ref, alpha);
    lemma_rdiv_in_range(p_ref * alpha, SCALE as int);
    assert(-(pa * (ATAN_LIM as int)) <= pa * at <= pa * (ATAN_LIM as int)) by (nonlinear_arith)
        requires
            0 <= pa,
            -(ATAN_LIM as int) <= at <= ATAN_LIM as int,
    ;
    if pa * at >= 0 {
        lemma_rdiv_mono(pa * at, pa * (ATAN_LIM as int), SCALE as int);
    } else {
        lemma_rdiv_odd(pa * at, SCALE as int);
        lemma_rdiv_mono(-(pa * at), pa * (ATAN_LIM as int), SCALE as int);
    }
}

/// A fixed-point product of non-negative factors is non-negative.
proof fn lemma_mul_nonneg(a: int, b: int)
    requires
        0 <= a,
        0 <= b,
    ensures
        0 <= a * b,
{
    assert(0 <= a * b) by (nonlinear_arith)
        requires
            0 <= a,
            0 <= b,
    ;
}

/// Equilibrium fixed point: at imbalance ratio one the quoted price equals
/// the reference price exactly, for every reference price and every pair of
/// curve parameters.
pub proof fn lemma_price_equilibrium(p_ref: int, alpha: int, beta: int)
    ensures
        price_spec(p_ref, alpha, beta, SCALE as int) == p_ref,
{
    lemma_mul_one(beta);
    lemma_mul_one(s_mul(p_ref, alpha));
}

/// With the curvature weight `alpha` at zero the curve is disabled: the
/// quoted price equals the reference price for every ratio and every
/// sensitivity `beta`.
pub proof fn lemma_price_alpha_zero(p_ref: int, beta: int, r: int)
    ensures
        price_spec(p_ref, 0, beta, r) == p_ref,
{
    lemma_mul_one(p_ref);
    lemma_mul_one(atan_units(s_mul(beta, r - SCALE)));
    assert(s_mul(p_ref, 0) == 0);
    assert(s_mul(0, atan_units(s_mul(beta, r - SCALE))) == 0);
}

/// Odd symmetry about the equilibrium ratio: for ratios at equal distance
/// above and below one, the quoted price deviates from the reference price
/// by exactly opposite amounts. (This is the curve's symmetry property; the
/// deviation magnitudes `price(r) - p_ref` and `p_ref - price(r')` agree
/// exactly when `r` and `r'` mirror each other additively around one.)
pub proof fn lemma_price_symmetry(p_ref: int, alpha: int, beta: int, d: int)
    ensures
        price_spec(p_ref, alpha, beta, SCALE + d) - p_ref == -(price_spec(
            p_ref,
            alpha,
            beta,
            SCALE - d,
        ) - p_ref),
{
    lemma_mul_odd(beta, d);
    assert((SCALE + d) - SCALE == d);
    assert((SCALE - d) - SCALE == -d);
    lemma_atan_units_odd(s_mul(beta, d));
    lemma_mul_odd(s_mul(p_ref, alpha), atan_units(s_mul(beta, d)));
}

} // verus!
