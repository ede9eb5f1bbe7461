use arpp::fixed::Fixed;
use arpp::pool::{LiquidityPool, PoolError};

/// Builds a fixed-point value from a plain decimal literal.
fn d(v: f64) -> Fixed {
    Fixed::from_units((v * 1e12).round() as i128)
}

fn abs_units(x: i128) -> i128 {
    if x < 0 { -x } else { x }
}

fn create_standard_pool() -> LiquidityPool {
    LiquidityPool::new(d(1000.0), d(1000.0), d(1.0), d(0.5), d(1.0))
}

fn create_custom_pool(
    token_a: Fixed,
    token_b: Fixed,
    p_ref: Fixed,
    alpha: Fixed,
    beta: Fixed,
) -> LiquidityPool {
    LiquidityPool::new(token_a, token_b, p_ref, alpha, beta)
}

#[test]
fn test_new_pool_creation() {
    let pool = create_standard_pool();
    assert_eq!(pool.get_balances(), (d(1000.0), d(1000.0)));
    assert_eq!(pool.get_price(), d(1.0));
}

#[test]
fn test_add_liquidity() {
    let mut pool = create_standard_pool();
    assert!(pool.add_liquidity(d(100.0), d(100.0)).is_ok());
    assert_eq!(pool.get_balances(), (d(1100.0), d(1100.0)));
}

#[test]
fn test_add_liquidity_zero_amount() {
    let mut pool = create_standard_pool();
    assert!(pool.add_liquidity(d(0.0), d(100.0)).is_err());
    assert!(pool.add_liquidity(d(100.0), d(0.0)).is_err());
}

#[test]
fn test_add_liquidity_negative_amount() {
    let mut pool = create_standard_pool();
    assert!(pool.add_liquidity(d(-100.0), d(100.0)).is_err());
    assert!(pool.add_liquidity(d(100.0), d(-100.0)).is_err());
}

#[test]
fn test_remove_liquidity() {
    let mut pool = create_standard_pool();
    assert!(pool.remove_liquidity(d(100.0), d(100.0)).is_ok());
    assert_eq!(pool.get_balances(), (d(900.0), d(900.0)));
}

#[test]
fn test_remove_liquidity_zero_amount() {
    let mut pool = create_standard_pool();
    assert!(pool.remove_liquidity(d(0.0), d(100.0)).is_err());
    assert!(pool.remove_liquidity(d(100.0), d(0.0)).is_err());
}

#[test]
fn test_remove_liquidity_negative_amount() {
    let mut pool = create_standard_pool();
    assert!(pool.remove_liquidity(d(-100.0), d(100.0)).is_err());
    assert!(pool.remove_liquidity(d(100.0), d(-100.0)).is_err());
}

#[test]
fn test_remove_liquidity_insufficient() {
    let mut pool = create_standard_pool();
    assert!(pool.remove_liquidity(d(1001.0), d(100.0)).is_err());
    assert!(pool.remove_liquidity(d(100.0), d(1001.0)).is_err());
}

#[test]
fn test_swap_a_to_b() {
    let mut pool = create_standard_pool();
    let initial_balances = pool.get_balances();

    let amount_a_to_swap = d(10.0);
    let result = pool.swap_a_to_b(amount_a_to_swap);
    assert!(result.is_ok());
    let amount_b = result.unwrap();

    let (token_a, token_b) = pool.get_balances();

    assert!(token_a > initial_balances.0, "Token A should increase");
    assert!(token_b < initial_balances.1, "Token B should decrease");

    assert_eq!(
        amount_b, amount_a_to_swap,
        "Amount of B should equal the amount of A swapped"
    );

    assert_eq!(
        token_a.units - initial_balances.0.units,
        amount_a_to_swap.units,
        "Increase in A should equal amount swapped"
    );
    assert_eq!(
        initial_balances.1.units - token_b.units,
        amount_b.units,
        "Decrease in B should equal amount received"
    );

    let initial_sum = initial_balances.0.units + initial_balances.1.units;
    let final_sum = token_a.units + token_b.units;
    assert!(
        abs_units(initial_sum - final_sum) < d(0.000001).units,
        "Total token amount should remain constant"
    );

    let swap_rate = amount_b.div(amount_a_to_swap);
    assert_eq!(swap_rate, d(1.0), "Swap rate should be 1:1");
}

#[test]
fn test_swap_b_to_a() {
    let mut pool = create_standard_pool();
    let initial_balances = pool.get_balances();

    let amount_b_to_swap = d(100.0);
    let result = pool.swap_b_to_a(amount_b_to_swap);
    assert!(result.is_ok());
    let amount_a = result.unwrap();

    let (token_a, token_b) = pool.get_balances();

    assert!(token_a < initial_balances.0, "Token A should decrease");
    assert!(token_b > initial_balances.1, "Token B should increase");

    assert_eq!(
        amount_a, amount_b_to_swap,
        "Amount of A should equal the amount of B swapped"
    );

    assert_eq!(
        initial_balances.0.units - token_a.units,
        amount_a.units,
        "Decrease in A should equal amount received"
    );
    assert_eq!(
        token_b.units - initial_balances.1.units,
        amount_b_to_swap.units,
        "Increase in B should equal amount swapped"
    );

    let initial_sum = initial_balances.0.units + initial_balances.1.units;
    let final_sum = token_a.units + token_b.units;
    assert!(
        abs_units(initial_sum - final_sum) < d(0.000001).units,
        "Total token amount should remain constant"
    );
}

#[test]
fn test_swap_zero_amount() {
    let mut pool = create_standard_pool();
    assert!(pool.swap_a_to_b(d(0.0)).is_err());
    assert!(pool.swap_b_to_a(d(0.0)).is_err());
}

#[test]
fn test_swap_negative_amount() {
    let mut pool = create_standard_pool();
    assert!(pool.swap_a_to_b(d(-100.0)).is_err());
    assert!(pool.swap_b_to_a(d(-100.0)).is_err());
}

#[test]
fn test_swap_insufficient_liquidity() {
    let mut pool = create_standard_pool();
    assert!(pool.swap_a_to_b(d(1001.0)).is_err());
    assert!(pool.swap_b_to_a(d(1001.0)).is_err());
}

#[test]
fn test_get_price() {
    let pool = create_standard_pool();
    assert!(abs_units(pool.get_price().units - d(1.0).units) < d(0.000001).units);
}

#[test]
fn test_price_changes_after_swap() {
    let mut pool = create_standard_pool();
    let initial_price = pool.get_price();
    pool.swap_a_to_b(d(1.0)).unwrap();
    let price_after_swap = pool.get_price();
    assert!(price_after_swap > initial_price);
}

#[test]
fn test_multiple_operations() {
    let mut pool = create_standard_pool();
    pool.add_liquidity(d(500.0), d(500.0)).unwrap();
    pool.swap_a_to_b(d(200.0)).unwrap();
    pool.swap_b_to_a(d(100.0)).unwrap();
    pool.remove_liquidity(d(300.0), d(300.0)).unwrap();
    let (token_a, token_b) = pool.get_balances();
    assert!(token_a != d(1000.0) && token_b != d(1000.0));
    assert!(token_a > d(0.0) && token_b > d(0.0));
}

#[test]
fn test_extreme_swap() {
    let mut pool = create_standard_pool();
    let result = pool.swap_a_to_b(d(999.0));
    assert!(result.is_ok());
    let (token_a, token_b) = pool.get_balances();
    assert!(token_a > d(1990.0));
    assert!(token_b < d(10.0));
}

#[test]
fn test_standard_pool() {
    let pool = create_custom_pool(d(1000.0), d(1000.0), d(1.0), d(0.5), d(1.0));
    assert_eq!(pool.get_balances(), (d(1000.0), d(1000.0)));
    assert_eq!(pool.get_price(), d(1.0));
}

#[test]
fn test_unbalanced_pool() {
    let pool = create_custom_pool(d(500.0), d(2000.0), d(1.0), d(0.5), d(1.0));
    assert_eq!(pool.get_balances(), (d(500.0), d(2000.0)));
    assert!(pool.get_price() < d(1.0));
}

#[test]
fn test_extreme_imbalance() {
    let pool = create_custom_pool(d(1.0), d(1000000.0), d(1.0), d(0.5), d(1.0));
    assert_eq!(pool.get_balances(), (d(1.0), d(1000000.0)));

    let price = pool.get_price();
    assert!(
        price < d(1.0),
        "Price should be lower than 1 for extreme imbalance"
    );
    assert!(
        price < d(1000000.0),
        "Price should be less than the ratio of token balances"
    );
}

#[test]
fn test_high_alpha() {
    let mut pool = create_custom_pool(d(1000.0), d(1000.0), d(1.0), d(0.99), d(1.0));

    let amount_to_swap = d(100.0);
    let result = pool.swap_a_to_b(amount_to_swap);
    assert!(result.is_ok());

    let amount_received = result.unwrap();
    let exchange_rate = amount_received.div(amount_to_swap);

    assert!(exchange_rate <= d(1.0), "Exchange rate should not exceed 1");
    assert!(exchange_rate > d(0.9), "Exchange rate should not be too low");
}

#[test]
fn test_low_alpha() {
    let mut pool = create_custom_pool(d(1000.0), d(1000.0), d(1.0), d(0.01), d(1.0));
    let result = pool.swap_a_to_b(d(100.0));
    assert!(result.is_ok());
    assert!(result.unwrap() > d(99.0));
}

#[test]
fn test_high_beta() {
    let mut pool = create_custom_pool(d(1000.0), d(1000.0), d(1.0), d(0.5), d(100.0));

    let amount_to_swap = d(100.0);
    let result = pool.swap_a_to_b(amount_to_swap);
    assert!(result.is_ok());

    let amount_received = result.unwrap();
    let exchange_rate = amount_received.div(amount_to_swap);

    assert!(exchange_rate > d(0.9), "Exchange rate should not be too low");
    assert!(exchange_rate < d(1.1), "Exchange rate should not be too high");

    assert!(
        pool.get_price() != d(1.0),
        "Price should change with high beta"
    );
}

#[test]
fn test_low_beta() {
    let mut pool = create_custom_pool(d(1000.0), d(1000.0), d(1.0), d(0.5), d(0.01));
    let result = pool.swap_a_to_b(d(100.0));
    assert!(result.is_ok());
    assert!(abs_units(result.unwrap().units - d(100.0).units) < d(0.01).units);
}

#[test]
fn test_high_p_ref() {
    let pool = create_custom_pool(d(1000.0), d(1000.0), d(1000.0), d(0.5), d(1.0));
    assert_eq!(pool.get_price(), d(1000.0));
}

#[test]
fn test_low_p_ref() {
    let pool = create_custom_pool(d(1000.0), d(1000.0), d(0.001), d(0.5), d(1.0));
    assert_eq!(pool.get_price(), d(0.001));
}

#[test]
fn test_swap_large_amount() {
    let mut pool = create_custom_pool(d(1000000.0), d(1000000.0), d(1.0), d(0.5), d(1.0));
    let result = pool.swap_a_to_b(d(500000.0));
    assert!(result.is_ok());
}

#[test]
fn test_swap_tiny_amount() {
    let mut pool = create_custom_pool(d(1000.0), d(1000.0), d(1.0), d(0.5), d(1.0));
    let result = pool.swap_a_to_b(d(0.000001));
    assert!(result.is_ok());
}

#[test]
fn test_add_large_liquidity() {
    let mut pool = create_custom_pool(d(1000.0), d(1000.0), d(1.0), d(0.5), d(1.0));
    assert!(pool.add_liquidity(d(1000000.0), d(1000000.0)).is_ok());
}

#[test]
fn test_remove_large_liquidity() {
    let mut pool = create_custom_pool(d(1000000.0), d(1000000.0), d(1.0), d(0.5), d(1.0));
    assert!(pool.remove_liquidity(d(999999.0), d(999999.0)).is_ok());
}

#[test]
fn test_remove_all_liquidity() {
    let mut pool = create_custom_pool(d(1000.0), d(1000.0), d(1.0), d(0.5), d(1.0));
    assert!(pool.remove_liquidity(d(1000.0), d(1000.0)).is_ok());
    assert_eq!(pool.get_balances(), (d(0.0), d(0.0)));
}

#[test]
fn test_swap_after_large_addition() {
    let mut pool = create_custom_pool(d(1000.0), d(1000.0), d(1.0), d(0.5), d(1.0));
    assert!(pool.add_liquidity(d(1000000.0), d(1000000.0)).is_ok());
    let result = pool.swap_a_to_b(d(100.0));
    assert!(result.is_ok());
}

#[test]
fn test_multiple_swaps() {
    let mut pool = create_custom_pool(d(10000.0), d(10000.0), d(1.0), d(0.5), d(1.0));
    for _ in 0..10 {
        assert!(pool.swap_a_to_b(d(100.0)).is_ok());
        assert!(pool.swap_b_to_a(d(90.0)).is_ok());
    }
}

#[test]
fn test_extreme_alpha_beta_combination() {
    let pool = create_custom_pool(d(1000.0), d(1000.0), d(1.0), d(0.99), d(100.0));
    assert!(pool.get_price() > d(0.9) && pool.get_price() < d(1.1));
}

#[test]
fn test_uneven_liquidity_addition() {
    let mut pool = create_custom_pool(d(1000.0), d(1000.0), d(1.0), d(0.5), d(1.0));
    assert!(pool.add_liquidity(d(500.0), d(1000.0)).is_ok());
    assert_eq!(pool.get_balances(), (d(1500.0), d(2000.0)));
}

#[test]
fn test_uneven_liquidity_removal() {
    let mut pool = create_custom_pool(d(1000.0), d(1000.0), d(1.0), d(0.5), d(1.0));
    assert!(pool.remove_liquidity(d(300.0), d(500.0)).is_ok());
    assert_eq!(pool.get_balances(), (d(700.0), d(500.0)));
}

#[test]
fn test_swap_exact_remaining_balance() {
    let mut pool = create_custom_pool(d(1000.0), d(1000.0), d(1.0), d(0.5), d(1.0));
    assert!(pool.swap_a_to_b(d(1000.0)).is_ok());
}

#[test]
fn test_swap_more_than_balance() {
    let mut pool = create_custom_pool(d(1000.0), d(1000.0), d(1.0), d(0.5), d(1.0));
    let result = pool.swap_a_to_b(d(1001.0));
    assert!(result.is_err());
    assert_eq!(result.unwrap_err(), PoolError::InsufficientLiquidity);
}

#[test]
fn test_price_change_after_swap() {
    let mut pool = create_custom_pool(d(1000.0), d(1000.0), d(1.0), d(0.5), d(1.0));
    let initial_price = pool.get_price();
    pool.swap_a_to_b(d(100.0)).unwrap();
    assert!(pool.get_price() != initial_price);
}

#[test]
fn test_zero_liquidity_pool() {
    let pool = create_custom_pool(d(0.0), d(0.0), d(1.0), d(0.5), d(1.0));
    assert_eq!(pool.get_balances(), (d(0.0), d(0.0)));
}

#[test]
#[should_panic]
fn test_swap_in_zero_liquidity_pool() {
    let mut pool = create_custom_pool(d(0.0), d(0.0), d(1.0), d(0.5), d(1.0));
    pool.swap_a_to_b(d(100.0)).unwrap();
}

#[test]
fn test_add_remove_tiny_liquidity() {
    let mut pool = create_custom_pool(d(1000.0), d(1000.0), d(1.0), d(0.5), d(1.0));
    assert!(pool.add_liquidity(d(0.000001), d(0.000001)).is_ok());
    assert!(pool.remove_liquidity(d(0.000001), d(0.000001)).is_ok());
}

#[test]
fn test_swap_with_extreme_price_reference() {
    let mut pool = create_custom_pool(d(1000.0), d(1000.0), d(1000000.0), d(0.5), d(1.0));

    let amount_to_swap = d(100.0);
    let result = pool.swap_a_to_b(amount_to_swap);
    assert!(result.is_err());
    assert_eq!(result.unwrap_err(), PoolError::InsufficientLiquidity);

    let small_amount = d(0.000001);
    let small_swap_result = pool.swap_a_to_b(small_amount);
    assert!(small_swap_result.is_ok());
    let received = small_swap_result.unwrap();
    assert_eq!(
        received,
        d(1.0),
        "Should receive exactly 1 token B for 0.000001 token A"
    );

    let b_to_a_result = pool.swap_b_to_a(d(0.0001));
    assert!(b_to_a_result.is_ok());
    let received_a = b_to_a_result.unwrap();
    assert!(abs_units(received_a.units - d(100.0500500833).units) < 10_000, "received_a off");

    let (final_a, final_b) = pool.get_balances();
    let final_price = pool.get_price();

    assert!(abs_units(final_a.units - d(899.9499509).units) < d(0.000001).units);
    assert!(abs_units(final_b.units - d(999.000100).units) < d(0.000001).units);
    assert!(abs_units(final_price.units - d(950586.85345855).units) < d(0.000001).units);
}
