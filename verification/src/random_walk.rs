//! The reference-price random walk.
//!
//! A price step is drawn in two stages: first an effective standard
//! deviation is drawn from a normal distribution centred at `std_dev` with
//! spread `std_dev_of_std_dev` and clamped to non-negative, then a price
//! change is drawn from a normal distribution centred at zero with that
//! effective deviation. The new price is floored at a small positive
//! minimum so the pricing curve never sees a non-positive reference price,
//! and capped at the model's largest balance. When both deviation
//! parameters are zero the walk is an exact no-op (up to the floor), which
//! serves as the deterministic control case.

use vstd::prelude::*;
use crate::fixed::{Fixed, SCALE, s_mul, lemma_mul_one, lemma_mul_abs_bound, lemma_rdiv_mag};
use crate::formula::BAL_MAX;
use crate::rng::std_normal;

verus! {

/// The positive floor under the reference price, in units: one tenth.
pub const MIN_PRICE: i128 = 100_000_000_000;

/// What one step of the walk yields when both deviation parameters are
/// zero: the old price, floored and capped into the admitted band.
pub open spec fn walk_fixed_point(last_price: int) -> int {
    if last_price < MIN_PRICE as int {
        MIN_PRICE as int
    } else if last_price > BAL_MAX as int {
        BAL_MAX as int
    } else {
        last_price
    }
}

/// One step of the bounded random walk.
pub fn random_walk_price(last_price: Fixed, std_dev: Fixed, std_dev_of_std_dev: Fixed) -> (p:
    Fixed)
    requires
        -(BAL_MAX as int) <= last_price@ <= BAL_MAX as int,
        0 <= std_dev@ <= BAL_MAX as int,
        0 <= std_dev_of_std_dev@ <= BAL_MAX as int,
    ensures
        MIN_PRICE as int <= p@ <= BAL_MAX as int,
        std_dev@ == 0 && std_dev_of_std_dev@ == 0 ==> p@ == walk_fixed_point(last_price@),
{
    let z1 = std_normal();
    proof {
        lemma_mul_abs_bound(std_dev_of_std_dev@, z1@, BAL_MAX as int, 1000 * (SCALE as int));
        lemma_rdiv_mag(
            std_dev_of_std_dev@ * z1@,
            SCALE as int,
            1000 * (BAL_MAX as int),
        );
        if std_dev_of_std_dev@ == 0 {
            lemma_mul_one(z1@);
        }
    }
    let spread = std_dev_of_std_dev.mul(z1);
    let drawn = std_dev.add(spread);
    let eff = drawn.max(Fixed::zero());
    let z2 = std_normal();
    proof {
        lemma_mul_abs_bound(eff@, z2@, 1001 * (BAL_MAX as int), 1000 * (SCALE as int));
        lemma_rdiv_mag(eff@ * z2@, SCALE as int, 1_001_000 * (BAL_MAX as int));
        if eff@ == 0 {
            lemma_mul_one(z2@);
        }
    }
    let change = eff.mul(z2);
    let stepped = last_price.add(change);
    let floored = stepped.max(Fixed::from_units(MIN_PRICE));
    floored.min(Fixed::from_units(BAL_MAX))
}

/// A random-walk sequence of the given length, starting from
/// `initial_price`. A length of zero still yields the initial price alone.
pub fn generate_random_walk_sequence(
    initial_price: Fixed,
    length: usize,
    std_dev: Fixed,
    std_dev_of_std_dev: Fixed,
) -> (prices: Vec<Fixed>)
    requires
        -(BAL_MAX as int) <= initial_price@ <= BAL_MAX as int,
        0 <= std_dev@ <= BAL_MAX as int,
        0 <= std_dev_of_std_dev@ <= BAL_MAX as int,
    ensures
        prices@.len() == if length == 0 { 1int } else { length as int },
        prices@[0] == initial_price,
        forall|i: int| 1 <= i < prices@.len()
            ==> MIN_PRICE as int <= #[trigger] prices@[i]@ <= BAL_MAX as int,
        std_dev@ == 0 && std_dev_of_std_dev@ == 0 ==> forall|i: int|
            1 <= i < prices@.len() ==> #[trigger] prices@[i]@ == walk_fixed_point(initial_price@),
{
    let mut prices: Vec<Fixed> = Vec::new();
    let mut current_price = initial_price;
    prices.push(current_price);
    let mut i: usize = 1;
    while i < length
        invariant
            1 <= i,
            i <= length || i == 1,
            prices@.len() == i as int,
            prices@[0] == initial_price,
            -(BAL_MAX as int) <= current_price@ <= BAL_MAX as int,
            0 <= std_dev@ <= BAL_MAX as int,
            0 <= std_dev_of_std_dev@ <= BAL_MAX as int,
            forall|j: int| 1 <= j < prices@.len()
                ==> MIN_PRICE as int <= #[trigger] prices@[j]@ <= BAL_MAX as int,
            std_dev@ == 0 && std_dev_of_std_dev@ == 0 ==> {
                &&& (i == 1 ==> current_price == initial_price)
                &&& (i > 1 ==> current_price@ == walk_fixed_point(initial_price@))
                &&& forall|j: int|
                    1 <= j < prices@.len() ==> #[trigger] prices@[j]@ == walk_fixed_point(
                        initial_price@,
                    )
            },
        decreases length - i,
    {
        current_price = random_walk_price(current_price, std_dev, std_dev_of_std_dev);
        prices.push(current_price);
        i = i + 1;
    }
    prices
}

/// Several independent random-walk sequences with shared parameters.
pub fn generate_multiple_random_walks(
    num_sequences: usize,
    initial_price: Fixed,
    length: usize,
    std_dev: Fixed,
    std_dev_of_std_dev: Fixed,
) -> (sequences: Vec<Vec<Fixed>>)
    requires
        -(BAL_MAX as int) <= initial_price@ <= BAL_MAX as int,
        0 <= std_dev@ <= BAL_MAX as int,
        0 <= std_dev_of_std_dev@ <= BAL_MAX as int,
    ensures
        sequences@.len() == num_sequences as int,
        forall|s: int| 0 <= s < sequences@.len()
            ==> (#[trigger] sequences@[s])@.len() == if length == 0 { 1int } else { length as int },
        forall|s: int| 0 <= s < sequences@.len() ==> (#[trigger] sequences@[s])@[0] == initial_price,
        forall|s: int, i: int|
            0 <= s < sequences@.len() && 1 <= i < sequences@[s]@.len()
                ==> MIN_PRICE as int <= (#[trigger] sequences@[s]@[i])@ <= BAL_MAX as int,
        std_dev@ == 0 && std_dev_of_std_dev@ == 0 ==> forall|s: int, i: int|
            0 <= s < sequences@.len() && 1 <= i < sequences@[s]@.len()
                ==> (#[trigger] sequences@[s]@[i])@ == walk_fixed_point(initial_price@),
{
    let mut sequences: Vec<Vec<Fixed>> = Vec::new();
    let mut n: usize = 0;
    while n < num_sequences
        invariant
            sequences@.len() == n as int,
            n <= num_sequences,
            -(BAL_MAX as int) <= initial_price@ <= BAL_MAX as int,
            0 <= std_dev@ <= BAL_MAX as int,
            0 <= std_dev_of_std_dev@ <= BAL_MAX as int,
            forall|s: int| 0 <= s < sequences@.len()
                ==> (#[trigger] sequences@[s])@.len() == if length == 0 { 1int } else { length as int },
            forall|s: int| 0 <= s < sequences@.len()
                ==> (#[trigger] sequences@[s])@[0] == initial_price,
            forall|s: int, i: int|
                0 <= s < sequences@.len() && 1 <= i < sequences@[s]@.len()
                    ==> MIN_PRICE as int <= (#[trigger] sequences@[s]@[i])@ <= BAL_MAX as int,
            std_dev@ == 0 && std_dev_of_std_dev@ == 0 ==> forall|s: int, i: int|
                0 <= s < sequences@.len() && 1 <= i < sequences@[s]@.len()
                    ==> (#[trigger] sequences@[s]@[i])@ == walk_fixed_point(initial_price@),
        decreases num_sequences - n,
    {
        let sequence = generate_random_walk_sequence(
            initial_price,
            length,
            std_dev,
            std_dev_of_std_dev,
        );
        sequences.push(sequence);
        n = n + 1;
    }
    sequences
}

} // verus!
