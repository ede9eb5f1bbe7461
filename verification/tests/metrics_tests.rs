use arpp::fixed::Fixed;
use arpp::metrics::{
    accumulate_pool_metrics, analyze_simulation_results, calculate_impermanent_loss,
    calculate_liquidity_depth, calculate_liquidity_efficiency, calculate_price_stability,
    calculate_price_volatility, calculate_trading_volume, PoolMetrics, PoolMetricsStep,
};
use arpp::pool::LiquidityPool;
use arpp::result::SimulationResult;

/// Builds a fixed-point value from a plain decimal literal.
fn d(v: f64) -> Fixed {
    Fixed::from_units((v * 1e12).round() as i128)
}

#[test]
fn test_volatility() {
    // No change
    calculate_price_volatility(d(100.0), d(100.0));
    // 50% increase
    calculate_price_volatility(d(150.0), d(100.0));
    // 50% decrease
    calculate_price_volatility(d(50.0), d(100.0));
    // 100% increase
    calculate_price_volatility(d(200.0), d(100.0));
    // Large increase (beyond 100%)
    calculate_price_volatility(d(300.0), d(100.0));
    // Zero initial price
    calculate_price_volatility(d(100.0), d(0.0));
    // Zero current price
    calculate_price_volatility(d(0.0), d(100.0));
    // Both prices zero
    calculate_price_volatility(d(0.0), d(0.0));
    // Negative current price
    calculate_price_volatility(d(-100.0), d(100.0));
    // Negative initial price
    calculate_price_volatility(d(100.0), d(-100.0));
    // Very small price change
    calculate_price_volatility(d(1.0001), d(1.0));
    // Very large numbers
    calculate_price_volatility(d(1000000.0), d(1000.0));
}

#[test]
fn tests_calculate_impermanent_loss() {
    // Normal case
    calculate_impermanent_loss(d(90.0), d(110.0), d(100.0), d(100.0), d(1.1), d(1.0));
    // No price change
    calculate_impermanent_loss(d(100.0), d(100.0), d(100.0), d(100.0), d(1.0), d(1.0));
    // Extreme price change
    calculate_impermanent_loss(d(50.0), d(200.0), d(100.0), d(100.0), d(2.0), d(1.0));
    // Zero initial price
    calculate_impermanent_loss(d(100.0), d(100.0), d(100.0), d(100.0), d(1.0), d(0.0));
    // Zero current price
    calculate_impermanent_loss(d(100.0), d(100.0), d(100.0), d(100.0), d(0.0), d(1.0));
    // Negative input
    calculate_impermanent_loss(d(-100.0), d(100.0), d(100.0), d(100.0), d(1.0), d(1.0));
    // Very large numbers
    calculate_impermanent_loss(
        d(1000000.0),
        d(1000000.0),
        d(1000000.0),
        d(1000000.0),
        d(2.0),
        d(1.0),
    );
}

#[test]
fn test_price_stability() {
    calculate_price_stability(d(0.0), d(0.0)); // Both prices zero
    calculate_price_stability(d(100.0), d(100.0)); // No price change
    calculate_price_stability(d(90.0), d(110.0)); // Normal case
    calculate_price_stability(d(0.0), d(100.0)); // Extreme change
    calculate_price_stability(d(-10.0), d(10.0)); // Negative price
    calculate_price_stability(d(110.0), d(90.0)); // Min greater than max
}

#[test]
fn test_liquidity_efficiency() {
    calculate_liquidity_efficiency(d(0.0)); // Normal case: no change
    calculate_liquidity_efficiency(d(0.5)); // Normal case: positive change
    calculate_liquidity_efficiency(d(-0.5)); // Normal case: negative change
    calculate_liquidity_efficiency(d(-1.0)); // Extreme case: denominator would be zero
    calculate_liquidity_efficiency(d(100.0)); // Extreme case: very large positive change
    calculate_liquidity_efficiency(d(-0.99)); // Extreme case: negative change close to -1
}

#[test]
fn test_volatility_conventions() {
    assert_eq!(calculate_price_volatility(d(100.0), d(0.0)), d(1.0));
    assert_eq!(calculate_price_volatility(d(0.0), d(0.0)), d(0.0));
    assert_eq!(calculate_price_volatility(d(100.0), d(100.0)), d(0.0));
}

#[test]
fn test_volatility_values() {
    assert_eq!(calculate_price_volatility(d(150.0), d(100.0)), d(0.5));
    assert_eq!(calculate_price_volatility(d(50.0), d(100.0)), d(0.5));
    // Clamped at one for changes beyond 100%
    assert_eq!(calculate_price_volatility(d(300.0), d(100.0)), d(1.0));
    assert_eq!(calculate_price_volatility(d(-1.0), d(100.0)), d(1.0));
}

#[test]
fn test_efficiency_guards() {
    assert_eq!(calculate_liquidity_efficiency(d(-1.0)), d(0.0));
    assert_eq!(calculate_liquidity_efficiency(d(0.0)), d(1.0));
    assert_eq!(calculate_liquidity_efficiency(d(1.0)), d(0.5));
    assert_eq!(calculate_liquidity_efficiency(d(-2.0)), d(0.0));
}

#[test]
fn test_depth_values() {
    assert_eq!(calculate_liquidity_depth(d(4.0), d(9.0)), d(6.0));
    assert_eq!(calculate_liquidity_depth(d(0.0), d(9.0)), d(0.0));
    assert_eq!(calculate_liquidity_depth(d(-4.0), d(9.0)), d(0.0));
}

#[test]
fn test_volume_values() {
    assert_eq!(
        calculate_trading_volume(d(110.0), d(90.0), d(100.0), d(100.0)),
        d(20.0)
    );
    assert_eq!(
        calculate_trading_volume(d(100.0), d(100.0), d(100.0), d(100.0)),
        d(0.0)
    );
}

#[test]
fn test_impermanent_loss_value() {
    // Held value: 100 * 1.1 / 1.0 + 100 = 210; pool value: 90 * 1.1 + 110 = 209.
    let il = calculate_impermanent_loss(d(90.0), d(110.0), d(100.0), d(100.0), d(1.1), d(1.0));
    assert_eq!(il.units, 995_238_095_238 - 1_000_000_000_000);
}

#[test]
fn test_stability_values() {
    assert_eq!(calculate_price_stability(d(90.0), d(110.0)), d(0.8));
    assert_eq!(calculate_price_stability(d(0.0), d(0.0)), d(1.0));
    assert_eq!(calculate_price_stability(d(100.0), d(100.0)), d(1.0));
    assert_eq!(calculate_price_stability(d(110.0), d(90.0)), d(0.0));
}

#[test]
fn test_metrics_accumulation() {
    let pool = LiquidityPool::new(d(1000.0), d(1000.0), d(1.0), d(0.5), d(1.0));
    let initial_step = PoolMetricsStep {
        price: d(1.0),
        p_ref: d(1.0),
        balances_a: d(1000.0),
        balances_b: d(1000.0),
        ratio: d(1.0),
    };
    let mut metrics = PoolMetrics::new();
    accumulate_pool_metrics(&pool, &mut metrics, &initial_step);
    assert_eq!(metrics.steps.len(), 1);
    assert_eq!(metrics.steps[0].price, d(1.0));
    assert_eq!(metrics.steps[0].balances_a, d(1000.0));
    // Identical state: no volatility, no volume, no impermanent loss.
    assert_eq!(metrics.price_volatility, d(0.0));
    assert_eq!(metrics.trading_volume, d(0.0));
    assert_eq!(metrics.impermanent_loss, d(0.0));
    assert_eq!(metrics.liquidity_depth, d(1000.0));
}

#[test]
fn test_analysis_values() {
    let result = SimulationResult::new(
        d(0.5),
        d(0.0),
        d(110.0),
        d(90.0),
        PoolMetrics::new(),
    );
    let analysis = analyze_simulation_results(&result);
    assert_eq!(analysis.price_stability, d(0.8));
    assert_eq!(analysis.average_price_impact, d(0.5));
    assert_eq!(analysis.liquidity_efficiency, d(1.0));
}

#[test]
fn test_metrics_getters() {
    let pool = LiquidityPool::new(d(1000.0), d(500.0), d(1.0), d(0.5), d(1.0));
    let initial_step = PoolMetricsStep {
        price: d(1.0),
        p_ref: d(1.0),
        balances_a: d(1000.0),
        balances_b: d(500.0),
        ratio: d(0.5),
    };
    let mut metrics = PoolMetrics::new();
    accumulate_pool_metrics(&pool, &mut metrics, &initial_step);
    assert_eq!(metrics.get_prices().len(), 1);
    assert_eq!(metrics.get_p_ref(), vec![d(1.0)]);
    assert_eq!(metrics.get_balances_a(), vec![d(1000.0)]);
    assert_eq!(metrics.get_balances_b(), vec![d(500.0)]);
    assert_eq!(metrics.get_ratios(), vec![d(0.5)]);
}
