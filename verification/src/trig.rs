//! A fixed-point arctangent.
//!
//! The pricing curve needs `atan` on fixed-point values. Floating point has
//! no place in verified code, so the arctangent is computed here in exact
//! integer arithmetic: the argument is reduced with the identity
//! `atan(v) = atan(c) + atan((v - c) / (1 + c*v))` against a table of
//! sixteenths, a large argument is folded with `atan(v) = pi/2 - atan(1/v)`,
//! and the small remainder is summed as the odd series
//! `w - w^3/3 + w^5/5 - w^7/7`. The whole computation runs at a finer
//! internal scale so that the rounding of each step stays far below one
//! stored unit.

use vstd::prelude::*;
use crate::fixed::{Fixed, s_rdiv, div_round, lemma_rdiv_mag, lemma_mul_abs_bound};

verus! {

/// Largest magnitude the scaled arctangent can take: `pi/2 * SCALE`,
/// rounded up.
pub const ATAN_LIM: i128 = 1_570_796_326_795;

/// Largest argument magnitude `atan_fixed` accepts, in units.
pub const ATAN_ARG_LIM: i128 = 200_000_000_000_000_000_000_000_000;

/// The internal working scale: one million times finer than a unit.
pub const FINE: i128 = 1_000_000_000_000_000_000;

/// How many internal steps make one stored unit.
pub const FINE_PER_UNIT: i128 = 1_000_000;

/// One sixteenth of the internal scale.
pub const FINE_16TH: i128 = 62_500_000_000_000_000;

/// `pi/2` at the internal scale.
pub const PI_HALF_FINE: i128 = 1_570_796_326_794_896_619;

pub const ATAN_T1: i128 = 62_418_809_995_957_348;
pub const ATAN_T2: i128 = 124_354_994_546_761_435;
pub const ATAN_T3: i128 = 185_347_949_995_694_765;
pub const ATAN_T4: i128 = 244_978_663_126_864_154;
pub const ATAN_T5: i128 = 302_884_868_374_971_406;
pub const ATAN_T6: i128 = 358_770_670_270_572_220;
pub const ATAN_T7: i128 = 412_410_441_597_387_307;
pub const ATAN_T8: i128 = 463_647_609_000_806_116;
pub const ATAN_T9: i128 = 512_389_460_310_737_707;
pub const ATAN_T10: i128 = 558_599_315_343_562_436;
pub const ATAN_T11: i128 = 602_287_346_134_964_182;
pub const ATAN_T12: i128 = 643_501_108_793_284_387;
pub const ATAN_T13: i128 = 682_316_554_874_748_078;
pub const ATAN_T14: i128 = 718_829_999_621_624_505;
pub const ATAN_T15: i128 = 753_151_280_962_194_390;
pub const ATAN_T16: i128 = 785_398_163_397_448_310;

/// `atan(k/16)` at the internal scale.
pub open spec fn atan_table(k: int) -> int {
    if k <= 0 {
        0
    } else if k == 1 {
        ATAN_T1 as int
    } else if k == 2 {
        ATAN_T2 as int
    } else if k == 3 {
        ATAN_T3 as int
    } else if k == 4 {
        ATAN_T4 as int
    } else if k == 5 {
        ATAN_T5 as int
    } else if k == 6 {
        ATAN_T6 as int
    } else if k == 7 {
        ATAN_T7 as int
    } else if k == 8 {
        ATAN_T8 as int
    } else if k == 9 {
        ATAN_T9 as int
    } else if k == 10 {
        ATAN_T10 as int
    } else if k == 11 {
        ATAN_T11 as int
    } else if k == 12 {
        ATAN_T12 as int
    } else if k == 13 {
        ATAN_T13 as int
    } else if k == 14 {
        ATAN_T14 as int
    } else if k == 15 {
        ATAN_T15 as int
    } else {
        ATAN_T16 as int
    }
}

/// The reduced arctangent at the internal scale, for an argument in
/// `[0, FINE]` (a value in `[0, 1]`).
pub open spec fn atan_fine(v: int) -> int {
    let k = s_rdiv(16 * v, FINE as int);
    let c = k * (FINE_16TH as int);
    let den = (FINE as int) + s_rdiv(c * v, FINE as int);
    let w = s_rdiv((v - c) * (FINE as int), den);
    let w2 = s_rdiv(w * w, FINE as int);
    let w3 = s_rdiv(w * w2, FINE as int);
    let w5 = s_rdiv(w3 * w2, FINE as int);
    let w7 = s_rdiv(w5 * w2, FINE as int);
    atan_table(k) + w - s_rdiv(w3, 3) + s_rdiv(w5, 5) - s_rdiv(w7, 7)
}

/// The scaled arctangent of a positive unit count, clamped to
/// `[0, ATAN_LIM]`.
pub open spec fn atan_mag(x: int) -> int {
    let v = x * (FINE_PER_UNIT as int);
    let a = if v > FINE as int {
        (PI_HALF_FINE as int) - atan_fine(s_rdiv((FINE as int) * (FINE as int), v))
    } else {
        atan_fine(v)
    };
    let r = s_rdiv(a, FINE_PER_UNIT as int);
    if r < 0 {
        0
    } else if r > ATAN_LIM as int {
        ATAN_LIM as int
    } else {
        r
    }
}

/// The scaled arctangent of any unit count: zero at zero and odd by
/// construction, since the magnitude is evaluated and the sign reapplied.
pub open spec fn atan_units(x: int) -> int {
    if x == 0 {
        0
    } else if x > 0 {
        atan_mag(x)
    } else {
        -atan_mag(-x)
    }
}

/// The scaled arctangent is odd.
pub proof fn lemma_atan_units_odd(x: int)
    ensures
        atan_units(-x) == -atan_units(x),
{
}

/// The scaled arctangent saturates: its magnitude never exceeds `pi/2`
/// scaled, whatever the argument.
pub proof fn lemma_atan_units_bounded(x: int)
    ensures
        -(ATAN_LIM as int) <= atan_units(x) <= ATAN_LIM as int,
{
}

fn atan_table_at(k: i128) -> (r: i128)
    ensures
        r as int == atan_table(k as int),
{
    if k <= 0 {
        0
    } else if k == 1 {
        ATAN_T1
    } else if k == 2 {
        ATAN_T2
    } else if k == 3 {
        ATAN_T3
    } else if k == 4 {
        ATAN_T4
    } else if k == 5 {
        ATAN_T5
    } else if k == 6 {
        ATAN_T6
    } else if k == 7 {
        ATAN_T7
    } else if k == 8 {
        ATAN_T8
    } else if k == 9 {
        ATAN_T9
    } else if k == 10 {
        ATAN_T10
    } else if k == 11 {
        ATAN_T11
    } else if k == 12 {
        ATAN_T12
    } else if k == 13 {
        ATAN_T13
    } else if k == 14 {
        ATAN_T14
    } else if k == 15 {
        ATAN_T15
    } else {
        ATAN_T16
    }
}

fn atan_fine_exec(v: i128) -> (r: i128)
    requires
        0 <= v <= FINE,
    ensures
        r as int == atan_fine(v as int),
        -5 * (FINE as int) <= r as int <= 5 * (FINE as int),
{
    proof {
        lemma_rdiv_mag(16 * (v as int), FINE as int, 16);
    }
    let k = div_round(16 * v, FINE);
    let c = k * FINE_16TH;
    proof {
        lemma_mul_abs_bound(c as int, v as int, FINE as int, FINE as int);
        lemma_rdiv_mag((c as int) * (v as int), FINE as int, FINE as int);
    }
    let den = FINE + div_round(c * v, FINE);
    proof {
        lemma_mul_abs_bound((v - c) as int, FINE as int, FINE as int, FINE as int);
        lemma_rdiv_mag(((v - c) as int) * (FINE as int), den as int, FINE as int);
    }
    let w = div_round((v - c) * FINE, den);
    proof {
        lemma_mul_abs_bound(w as int, w as int, FINE as int, FINE as int);
        lemma_rdiv_mag((w as int) * (w as int), FINE as int, FINE as int);
    }
    let w2 = div_round(w * w, FINE);
    proof {
        lemma_mul_abs_bound(w as int, w2 as int, FINE as int, FINE as int);
        lemma_rdiv_mag((w as int) * (w2 as int), FINE as int, FINE as int);
    }
    let w3 = div_round(w * w2, FINE);
    proof {
        lemma_mul_abs_bound(w3 as int, w2 as int, FINE as int, FINE as int);
        lemma_rdiv_mag((w3 as int) * (w2 as int), FINE as int, FINE as int);
    }
    let w5 = div_round(w3 * w2, FINE);
    proof {
        lemma_mul_abs_bound(w5 as int, w2 as int, FINE as int, FINE as int);
        lemma_rdiv_mag((w5 as int) * (w2 as int), FINE as int, FINE as int);
    }
    let w7 = div_round(w5 * w2, FINE);
    proof {
        lemma_rdiv_mag(w3 as int, 3, FINE as int);
        lemma_rdiv_mag(w5 as int, 5, FINE as int);
        lemma_rdiv_mag(w7 as int, 7, FINE as int);
    }
    atan_table_at(k) + w - div_round(w3, 3) + div_round(w5, 5) - div_round(w7, 7)
}

/// The scaled arctangent of a fixed-point value: `atan(x / SCALE) * SCALE`,
/// computed to well below a unit and clamped to `[-ATAN_LIM, ATAN_LIM]`.
pub fn atan_fixed(x: Fixed) -> (r: Fixed)
    requires
        -(ATAN_ARG_LIM as int) <= x@ <= ATAN_ARG_LIM as int,
    ensures
        r@ == atan_units(x@),
        -(ATAN_LIM as int) <= r@ <= ATAN_LIM as int,
        0 <= x@ ==> 0 <= r@,
        x@ <= 0 ==> r@ <= 0,
{
    if x.units == 0 {
        Fixed { units: 0 }
    } else if x.units > 0 {
        Fixed { units: atan_mag_exec(x.units) }
    } else {
        Fixed { units: -atan_mag_exec(-x.units) }
    }
}

fn atan_mag_exec(x: i128) -> (r: i128)
    requires
        0 < x <= ATAN_ARG_LIM,
    ensures
        r as int == atan_mag(x as int),
        0 <= r <= ATAN_LIM,
{
    let v = x * FINE_PER_UNIT;
    let a: i128 = if v > FINE {
        proof {
            lemma_rdiv_mag((FINE as int) * (FINE as int), v as int, FINE as int);
        }
        let inv = div_round(FINE * FINE, v);
        PI_HALF_FINE - atan_fine_exec(inv)
    } else {
        atan_fine_exec(v)
    };
    proof {
        lemma_rdiv_mag(a as int, FINE_PER_UNIT as int, 7_000_000_000_000int);
    }
    let r0 = div_round(a, FINE_PER_UNIT);
    if r0 < 0 {
        0
    } else if r0 > ATAN_LIM {
        ATAN_LIM
    } else {
        r0
    }
}

} // verus!
