//! Fixed-point decimal numbers: an `i128` count of `1e-12` units.
//!
//! All balances, prices and curve parameters in this crate are held in this
//! representation, so that every arithmetic step is exact integer arithmetic
//! and can be reasoned about directly.

use vstd::prelude::*;

verus! {

/// Number of fractional units in one whole: a value `v` is stored as
/// `v * SCALE` rounded to an integer.
pub const SCALE: i128 = 1_000_000_000_000;

/// A fixed-point decimal number with twelve fractional digits.
#[derive(Clone, Copy, Debug, PartialEq, Eq, PartialOrd, Ord, Hash, Structural)]
pub struct Fixed {
    pub units: i128,
}

impl View for Fixed {
    type V = int;

    open spec fn view(&self) -> int {
        self.units as int
    }
}

/// Quotient of `n` by `m`, rounded to the nearest integer with ties going
/// away from zero. Defined for positive `m`; both branches divide
/// non-negative integers, where `/` is plain truncating division.
pub open spec fn s_rdiv(n: int, m: int) -> int {
    if n >= 0 {
        (n + m / 2) / m
    } else {
        -(((-n) + m / 2) / m)
    }
}

/// Product of two fixed-point values: the mathematical product has scale
/// `SCALE * SCALE`, so one `SCALE` is divided back out, rounded.
pub open spec fn s_mul(a: int, b: int) -> int {
    s_rdiv(a * b, SCALE as int)
}

/// Quotient of two fixed-point values: the dividend is brought up to scale
/// `SCALE * SCALE` first so the quotient keeps scale `SCALE`. Defined for
/// positive `b`.
pub open spec fn s_div(a: int, b: int) -> int {
    s_rdiv(a * (SCALE as int), b)
}

impl Fixed {
    /// Builds a value from a raw count of `1e-12` units.
    pub fn from_units(units: i128) -> (r: Fixed)
        ensures
            r@ == units as int,
    {
        Fixed { units }
    }

    /// Builds a whole number.
    pub fn from_int(v: i128) -> (r: Fixed)
        requires
            -170_000_000_000_000_000_000_000_000 <= v <= 170_000_000_000_000_000_000_000_000,
        ensures
            r@ == v * (SCALE as int),
    {
        Fixed { units: v * SCALE }
    }

    /// The zero value.
    pub fn zero() -> (r: Fixed)
        ensures
            r@ == 0,
    {
        Fixed { units: 0 }
    }

    /// The value one.
    pub fn one() -> (r: Fixed)
        ensures
            r@ == SCALE as int,
    {
        Fixed { units: SCALE }
    }
}

/// Rounded division of a unit count by a positive integer, total for every
/// `n` above `i128::MIN`.
pub fn div_round(n: i128, m: i128) -> (q: i128)
    requires
        1 <= m,
        -0x7fff_ffff_ffff_ffff_ffff_ffff_ffff_ffff <= n,
    ensures
        q == s_rdiv(n as int, m as int),
{
    proof {
        lemma_rdiv_in_range(n as int, m as int);
    }
    if n >= 0 {
        let nn: u128 = (n as u128) + ((m as u128) / 2);
        ((nn / (m as u128)) as i128)
    } else {
        let neg: i128 = -n;
        let nn: u128 = (neg as u128) + ((m as u128) / 2);
        -((nn / (m as u128)) as i128)
    }
}

/// The rounded quotient of `n` by `m` is no larger in magnitude than `|n|`,
/// so it stays within `i128` whenever `n` does.
pub proof fn lemma_rdiv_in_range(n: int, m: int)
    requires
        1 <= m,
    ensures
        n >= 0 ==> 0 <= s_rdiv(n, m) <= n,
        n < 0 ==> n <= s_rdiv(n, m) <= 0,
{
    if n >= 0 {
        lemma_nonneg_rdiv_bound(n, m);
    } else {
        lemma_nonneg_rdiv_bound(-n, m);
    }
}

proof fn lemma_nonneg_rdiv_bound(n: int, m: int) by (nonlinear_arith)
    requires
        1 <= m,
        0 <= n,
    ensures
        0 <= (n + m / 2) / m <= n,
{
}

/// Rounded division is an odd function of the dividend.
pub proof fn lemma_rdiv_odd(n: int, m: int)
    requires
        1 <= m,
    ensures
        s_rdiv(-n, m) == -s_rdiv(n, m),
{
    if n == 0 {
        assert((0 + m / 2) / m == 0) by (nonlinear_arith)
            requires
                1 <= m,
        ;
    }
}

/// Dividing an exact multiple of the divisor returns the factor.
pub proof fn lemma_rdiv_exact(k: int, m: int)
    requires
        1 <= m,
    ensures
        s_rdiv(k * m, m) == k,
{
    if k >= 0 {
        assert(0 <= k * m) by (nonlinear_arith)
            requires
                1 <= m,
                0 <= k,
        ;
        assert((k * m + m / 2) / m == k) by (nonlinear_arith)
            requires
                1 <= m,
                0 <= k,
        ;
    } else {
        assert(k * m < 0 && -(k * m) == (-k) * m) by (nonlinear_arith)
            requires
                1 <= m,
                k < 0,
        ;
        assert(((-k) * m + m / 2) / m == -k) by (nonlinear_arith)
            requires
                1 <= m,
                0 <= -k,
        ;
    }
}

/// Fixed-point multiplication by an exact whole multiple of `SCALE` is
/// exact; in particular multiplying by one changes nothing.
pub proof fn lemma_mul_one(a: int)
    ensures
        s_mul(a, SCALE as int) == a,
        s_mul(a, 0) == 0,
        s_mul(0, a) == 0,
{
    lemma_rdiv_exact(a, SCALE as int);
    lemma_rdiv_exact(0, SCALE as int);
    assert(a * (SCALE as int) == (SCALE as int) * a) by (nonlinear_arith);
    assert(a * 0 == 0) by (nonlinear_arith);
    assert(0 * a == 0) by (nonlinear_arith);
}

/// Fixed-point multiplication is odd in its second factor.
pub proof fn lemma_mul_odd(a: int, b: int)
    ensures
        s_mul(a, -b) == -s_mul(a, b),
{
    assert(a * (-b) == -(a * b)) by (nonlinear_arith);
    lemma_rdiv_odd(a * b, SCALE as int);
}

/// Bounds the magnitude of a product from bounds on the factors.
pub proof fn lemma_mul_abs_bound(a: int, b: int, aa: int, bb: int) by (nonlinear_arith)
    requires
        -aa <= a <= aa,
        -bb <= b <= bb,
    ensures
        -(aa * bb) <= a * b <= aa * bb,
{
}

/// Rounded division by a positive `m` shrinks magnitudes by a factor of at
/// least `m` (up to the half-unit of rounding).
pub proof fn lemma_rdiv_mag(n: int, m: int, c: int)
    requires
        1 <= m,
        -(c * m) <= n <= c * m,
        0 <= c,
    ensures
        -c <= s_rdiv(n, m) <= c,
{
    if n >= 0 {
        assert((n + m / 2) / m <= c) by (nonlinear_arith)
            requires
                1 <= m,
                0 <= n <= c * m,
                0 <= c,
        ;
        assert(0 <= (n + m / 2) / m) by (nonlinear_arith)
            requires
                1 <= m,
                0 <= n,
        ;
    } else {
        assert(((-n) + m / 2) / m <= c) by (nonlinear_arith)
            requires
                1 <= m,
                0 <= -n <= c * m,
                0 <= c,
        ;
        assert(0 <= ((-n) + m / 2) / m) by (nonlinear_arith)
            requires
                1 <= m,
                0 <= -n,
        ;
    }
}

/// Rounded division is monotone in the magnitude of the dividend.
pub proof fn lemma_rdiv_mono(n: int, n2: int, m: int)
    requires
        1 <= m,
        0 <= n <= n2,
    ensures
        0 <= s_rdiv(n, m) <= s_rdiv(n2, m),
{
    assert((n + m / 2) / m <= (n2 + m / 2) / m) by (nonlinear_arith)
        requires
            1 <= m,
            0 <= n <= n2,
    ;
    assert(0 <= (n + m / 2) / m) by (nonlinear_arith)
        requires
            1 <= m,
            0 <= n,
    ;
}

/// A rounded quotient of a huge dividend is itself huge: used to justify
/// reporting an overdraw when a product does not fit the machine word.
pub proof fn lemma_rdiv_huge(n: int, m: int, c: int)
    requires
        1 <= m,
        0 <= c,
        n >= c * m,
    ensures
        s_rdiv(n, m) >= c,
{
    assert((n + m / 2) / m >= c) by (nonlinear_arith)
        requires
            1 <= m,
            0 <= c,
            n >= c * m,
    ;
}

impl Fixed {
    /// Sum of two fixed-point values.
    pub fn add(self, other: Fixed) -> (r: Fixed)
        requires
            i128::MIN <= self@ + other@ <= i128::MAX,
        ensures
            r@ == self@ + other@,
    {
        Fixed { units: self.units + other.units }
    }

    /// Difference of two fixed-point values.
    pub fn sub(self, other: Fixed) -> (r: Fixed)
        requires
            i128::MIN <= self@ - other@ <= i128::MAX,
        ensures
            r@ == self@ - other@,
    {
        Fixed { units: self.units - other.units }
    }

    /// Rounded fixed-point product.
    pub fn mul(self, other: Fixed) -> (r: Fixed)
        requires
            -0x7fff_ffff_ffff_ffff_ffff_ffff_ffff_ffff <= self@ * other@
                <= 0x7fff_ffff_ffff_ffff_ffff_ffff_ffff_ffff,
        ensures
            r@ == s_mul(self@, other@),
    {
        let p: i128 = self.units * other.units;
        Fixed { units: div_round(p, SCALE) }
    }

    /// Rounded fixed-point product that reports, instead of computing, a
    /// result whose intermediate product leaves the machine word.
    pub fn mul_checked(self, other: Fixed) -> (r: Option<Fixed>)
        ensures
            match r {
                Some(v) => v@ == s_mul(self@, other@),
                None => self@ * other@ > i128::MAX || self@ * other@ <= i128::MIN,
            },
    {
        match self.units.checked_mul(other.units) {
            Some(p) => {
                if p == i128::MIN {
                    None
                } else {
                    Some(Fixed { units: div_round(p, SCALE) })
                }
            },
            None => None,
        }
    }

    /// Rounded fixed-point quotient by a positive divisor.
    pub fn div(self, other: Fixed) -> (r: Fixed)
        requires
            0 < other@,
            -0x7fff_ffff_ffff_ffff_ffff_ffff_ffff_ffff <= self@ * (SCALE as int)
                <= 0x7fff_ffff_ffff_ffff_ffff_ffff_ffff_ffff,
        ensures
            r@ == s_div(self@, other@),
    {
        let p: i128 = self.units * SCALE;
        Fixed { units: div_round(p, other.units) }
    }

    /// Absolute value.
    pub fn abs(self) -> (r: Fixed)
        requires
            self@ != i128::MIN,
        ensures
            r@ == if self@ >= 0 { self@ } else { -self@ },
    {
        if self.units >= 0 {
            self
        } else {
            Fixed { units: -self.units }
        }
    }

    /// The smaller of two values.
    pub fn min(self, other: Fixed) -> (r: Fixed)
        ensures
            r@ == if self@ <= other@ { self@ } else { other@ },
    {
        if self.units <= other.units {
            self
        } else {
            other
        }
    }

    /// The larger of two values.
    pub fn max(self, other: Fixed) -> (r: Fixed)
        ensures
            r@ == if self@ >= other@ { self@ } else { other@ },
    {
        if self.units >= other.units {
            self
        } else {
            other
        }
    }
}

/// The integer square root: the largest integer whose square does not
/// exceed `n` (zero for negative `n`).
pub open spec fn spec_isqrt(n: int) -> int {
    if n < 0 {
        0
    } else {
        choose|r: int| 0 <= r && #[trigger] (r * r) <= n && n < (r + 1) * (r + 1)
    }
}

/// Any two integers satisfying the square-root characterization of `n` are
/// equal, so `spec_isqrt` names the witness produced by `isqrt`.
pub proof fn lemma_isqrt_unique(n: int, a: int, b: int) by (nonlinear_arith)
    requires
        0 <= a && a * a <= n < (a + 1) * (a + 1),
        0 <= b && b * b <= n < (b + 1) * (b + 1),
    ensures
        a == b,
{
}

/// Floor of the square root of a non-negative unit count.
pub fn isqrt(n: u128) -> (r: u128)
    ensures
        r * r <= n < (r + 1) * (r + 1),
        r as int == spec_isqrt(n as int),
{
    let mut lo: u128 = 0;
    let mut hi: u128 = 0xffff_ffff_ffff_ffff;
    proof {
        assert((hi + 1) * (hi + 1) > n as int) by (nonlinear_arith)
            requires
                hi == 0xffff_ffff_ffff_ffffu128,
                n <= u128::MAX,
        ;
    }
    while lo < hi
        invariant
            lo <= hi <= 0xffff_ffff_ffff_ffff,
            lo * lo <= n,
            (hi + 1) * (hi + 1) > n,
        decreases hi - lo,
    {
        let mid: u128 = (lo + hi + 1) / 2;
        assert(lo < mid <= hi);
        if mid <= n / mid {
            proof {
                assert(mid * mid <= n) by (nonlinear_arith)
                    requires
                        0 < mid,
                        mid <= n / mid,
                        n / mid == (n as int) / (mid as int),
                ;
            }
            lo = mid;
        } else {
            proof {
                assert(mid * mid > n) by (nonlinear_arith)
                    requires
                        0 < mid,
                        mid > n / mid,
                        n / mid == (n as int) / (mid as int),
                ;
            }
            hi = mid - 1;
        }
    }
    proof {
        let w = lo as int;
        assert(0 <= w && w * w <= n as int && (n as int) < (w + 1) * (w + 1));
        let c = choose|r: int| 0 <= r && #[trigger] (r * r) <= n as int && (n as int) < (r + 1) * (r + 1);
        lemma_isqrt_unique(n as int, w, c);
    }
    lo
}

} // verus!
