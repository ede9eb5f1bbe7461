//! Draws of randomness, taken from outside crates through trusted items.
//!
//! Each wrapper returns a plain integer value and promises nothing about it
//! beyond its range: every function built on these draws is verified for
//! every value the draw could take.

use vstd::prelude::*;
use crate::fixed::{Fixed, SCALE, div_round, lemma_rdiv_mag};

verus! {

/// `2^40`: the resolution at which a normal draw is handed over.
pub const POW2_40: i128 = 1_099_511_627_776;

/// A draw beyond a thousand standard deviations is treated as one at that
/// magnitude, so that later scaling cannot leave the machine word.
pub const NORMAL_CAP: i128 = 1_099_511_627_776_000;

/// Relies on rand_distr::StandardNormal, sampled through rand::thread_rng:
/// one draw from the standard normal distribution. The draw is converted
/// on the spot (libm::ldexp scales it by `2^40`, libm::round makes it
/// whole) and handed over as that integer count of `2^-40`ths. Nothing is
/// assumed about the value drawn.
#[verifier::external_body]
fn std_normal_raw() -> (z: i128) {
    let mut rng = rand::thread_rng();
    let z = rand::Rng::sample(&mut rng, rand_distr::StandardNormal);
    libm::round(libm::ldexp(z, 40)) as i128
}

/// Relies on rand::random for u64: a uniformly distributed 64-bit value.
/// Nothing is assumed about the value drawn.
#[verifier::external_body]
fn random_u64() -> (x: u64) {
    rand::random::<u64>()
}

/// Relies on rand::random for bool: a fair coin flip. Nothing is assumed
/// about the value drawn.
#[verifier::external_body]
pub fn random_bool() -> (b: bool) {
    rand::random::<bool>()
}

/// One standard-normal draw in fixed-point units, clamped to a thousand
/// standard deviations.
pub fn std_normal() -> (z: Fixed)
    ensures
        -1000 * (SCALE as int) <= z@ <= 1000 * (SCALE as int),
{
    let raw = std_normal_raw();
    let capped: i128 = if raw > NORMAL_CAP {
        NORMAL_CAP
    } else if raw < -NORMAL_CAP {
        -NORMAL_CAP
    } else {
        raw
    };
    proof {
        lemma_rdiv_mag(
            (capped as int) * (SCALE as int),
            POW2_40 as int,
            1000 * (SCALE as int),
        );
    }
    Fixed { units: div_round(capped * SCALE, POW2_40) }
}

/// One uniform draw from `[0, 1)` in fixed-point units.
pub fn uniform_unit() -> (u: Fixed)
    ensures
        0 <= u@ < SCALE as int,
{
    let x = random_u64();
    proof {
        assert((x as int) * (SCALE as int) < 0x1_0000_0000_0000_0000_0000_0000_0000_0000int)
            by (nonlinear_arith)
            requires
                x <= 18_446_744_073_709_551_615u64,
        ;
    }
    let wide: u128 = (x as u128) * (SCALE as u128);
    let q: u128 = wide / 18_446_744_073_709_551_616;
    proof {
        assert(q < SCALE as u128) by (nonlinear_arith)
            requires
                q == wide / 18_446_744_073_709_551_616u128,
                wide == (x as u128) * (SCALE as u128),
                x <= 18_446_744_073_709_551_615u64,
        ;
    }
    Fixed { units: q as i128 }
}

} // verus!
