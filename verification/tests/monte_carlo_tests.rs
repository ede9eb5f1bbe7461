use arpp::fixed::Fixed;
use arpp::monte_carlo::MonteCarloSimulation;
use arpp::pool::LiquidityPool;
use arpp::strategies::{MeanReversionStrategy, RandomStrategy, TradingStrategy};

/// Builds a fixed-point value from a plain decimal literal.
fn d(v: f64) -> Fixed {
    Fixed::from_units((v * 1e12).round() as i128)
}

/// A strategy that trades on every observable deviation: with a zero
/// threshold any price away from the reference triggers a swap, which
/// keeps the pool moving on every step.
fn active_strategy() -> TradingStrategy {
    TradingStrategy::MeanReversion(MeanReversionStrategy::new(d(0.0), d(10.0)))
}

#[test]
fn test_monte_carlo_simulation() {
    let initial_pool = LiquidityPool::new(d(1000.0), d(500.0), d(1.0), d(1.0), d(1.0));

    let mut simulation =
        MonteCarloSimulation::new(initial_pool, 10, 5, active_strategy(), d(1.0), d(1.0));
    let result = simulation.run().unwrap();

    assert!(result.average_price_change > d(0.0));
    assert!(result.average_liquidity_change > d(0.0));
    assert!(result.max_price > d(0.0));
    assert!(result.min_price > d(0.0));
}

#[test]
fn test_monte_carlo_multiple_iterations() {
    let initial_pool = LiquidityPool::new(d(1000.0), d(500.0), d(1.0), d(1.0), d(1.0));

    let mut simulation =
        MonteCarloSimulation::new(initial_pool, 100, 50, active_strategy(), d(1.0), d(1.0));
    let result = simulation.run().unwrap();

    assert!(result.average_price_change > d(0.0));
    assert!(result.average_liquidity_change > d(0.0));
    assert!(result.max_price > d(0.0));
    assert!(result.min_price > d(0.0));
}

#[test]
fn test_monte_carlo_with_low_liquidity() {
    let initial_pool = LiquidityPool::new(d(1.0), d(1.0), d(1.0), d(1.0), d(1.0));

    let mut simulation =
        MonteCarloSimulation::new(initial_pool, 10, 5, active_strategy(), d(1.0), d(1.0));
    let result = simulation.run().unwrap();

    assert!(result.average_price_change >= d(0.0));
    assert!(result.average_liquidity_change >= d(0.0));
    assert!(result.max_price > d(0.0));
    assert!(result.min_price > d(0.0));
}

#[test]
fn test_monte_carlo_zero_iterations() {
    let initial_pool = LiquidityPool::new(d(1000.0), d(500.0), d(1.0), d(1.0), d(1.0));

    let mut simulation =
        MonteCarloSimulation::new(initial_pool, 0, 0, active_strategy(), d(1.0), d(1.0));
    let result = simulation.run().unwrap();

    assert_eq!(result.average_price_change, d(0.0));
    assert_eq!(result.average_liquidity_change, d(0.0));
    assert_eq!(result.max_price, d(0.0));
    assert_eq!(result.min_price, d(0.0));
    assert!(result.metrics.steps.is_empty());
    assert_eq!(result.metrics.price_volatility, d(0.0));
    assert_eq!(result.metrics.liquidity_depth, d(0.0));
    assert_eq!(result.metrics.trading_volume, d(0.0));
    assert_eq!(result.metrics.impermanent_loss, d(0.0));
}

#[test]
fn test_monte_carlo_high_iteration_count() {
    let initial_pool = LiquidityPool::new(d(1000.0), d(500.0), d(1.0), d(1.0), d(1.0));

    let mut simulation =
        MonteCarloSimulation::new(initial_pool, 10_000, 5, active_strategy(), d(1.0), d(1.0));
    let result = simulation.run().unwrap();

    assert!(result.average_price_change > d(0.0));
    assert!(result.average_liquidity_change > d(0.0));
    assert!(result.max_price > d(0.0));
    assert!(result.min_price > d(0.0));
}

#[test]
fn test_monte_carlo_random_strategy_run() {
    let initial_pool = LiquidityPool::new(d(1000.0), d(1000.0), d(1.0), d(0.5), d(1.0));
    let strategy = TradingStrategy::Random(RandomStrategy::new(d(0.5), d(10.0)));

    let mut simulation = MonteCarloSimulation::new(initial_pool, 10, 10, strategy, d(0.1), d(0.01));
    let result = simulation.run().unwrap();

    assert!(result.min_price <= result.max_price);
    assert!(result.metrics.steps.len() <= 100);
    assert!(result.average_price_change >= d(0.0));
}

#[test]
fn test_monte_carlo_histories_and_final_pool() {
    let initial_pool = LiquidityPool::new(d(1000.0), d(1000.0), d(1.0), d(0.5), d(1.0));
    let simulation = MonteCarloSimulation::new(
        initial_pool,
        10,
        5,
        active_strategy(),
        d(1.0),
        d(1.0),
    );
    assert!(simulation.get_price_history().is_empty());
    assert!(simulation.get_metrics_history().is_empty());
    assert_eq!(simulation.get_final_pool().get_balances(), (d(1000.0), d(1000.0)));
}

#[test]
fn test_monte_carlo_metrics_grow() {
    let initial_pool = LiquidityPool::new(d(1000.0), d(1000.0), d(1.0), d(0.5), d(1.0));

    let mut simulation =
        MonteCarloSimulation::new(initial_pool, 4, 25, active_strategy(), d(0.5), d(0.1));
    let result = simulation.run().unwrap();

    // Every step of a quotable, in-range pool is recorded.
    assert_eq!(result.metrics.steps.len(), 100);
    assert!(result.metrics.liquidity_depth > d(0.0));
}

#[test]
fn test_monte_carlo_no_steps() {
    // Iterations without steps cannot move the pool: both extremes are
    // the standing quote and the averages are exactly zero.
    let initial_pool = LiquidityPool::new(d(1000.0), d(1000.0), d(1.0), d(0.5), d(1.0));

    let mut simulation =
        MonteCarloSimulation::new(initial_pool, 3, 0, active_strategy(), d(1.0), d(1.0));
    let result = simulation.run().unwrap();

    assert_eq!(result.max_price, d(1.0));
    assert_eq!(result.min_price, d(1.0));
    assert_eq!(result.average_price_change, d(0.0));
    assert_eq!(result.average_liquidity_change, d(0.0));
    assert!(result.metrics.steps.is_empty());
    assert_eq!(simulation.get_final_pool().get_balances(), (d(1000.0), d(1000.0)));
}
