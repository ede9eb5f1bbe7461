use arpp::fixed::Fixed;
use arpp::random_walk::{
    generate_multiple_random_walks, generate_random_walk_sequence, random_walk_price,
};

/// Builds a fixed-point value from a plain decimal literal.
fn d(v: f64) -> Fixed {
    Fixed::from_units((v * 1e12).round() as i128)
}

#[test]
fn test_random_walk_price_increases() {
    let last_price = d(100.0);
    let std_dev = d(1.0);
    let std_dev_of_std_dev = d(0.2);
    let new_price = random_walk_price(last_price, std_dev, std_dev_of_std_dev);
    assert!(new_price >= d(0.0));
}

#[test]
fn test_random_walk_price_changes() {
    let last_price = d(100.0);
    let std_dev = d(1.0);
    let std_dev_of_std_dev = d(0.2);
    let new_price = random_walk_price(last_price, std_dev, std_dev_of_std_dev);
    assert!(new_price != last_price);
}

#[test]
fn test_random_walk_with_zero_std_dev() {
    let last_price = d(100.0);
    let std_dev = d(0.0);
    let std_dev_of_std_dev = d(0.0);
    let new_price = random_walk_price(last_price, std_dev, std_dev_of_std_dev);
    assert_eq!(new_price, last_price);
}

#[test]
fn test_random_walk_with_high_std_dev() {
    let last_price = d(100.0);
    let std_dev = d(50.0);
    let std_dev_of_std_dev = d(5.0);
    let new_price = random_walk_price(last_price, std_dev, std_dev_of_std_dev);
    assert!(new_price != last_price);
}

#[test]
fn test_random_walk_with_minimal_values() {
    let last_price = d(1.0);
    let std_dev = d(0.01);
    let std_dev_of_std_dev = d(0.001);
    let new_price = random_walk_price(last_price, std_dev, std_dev_of_std_dev);
    assert!(new_price >= d(0.0));
}

#[test]
fn test_sequence_shape() {
    let prices = generate_random_walk_sequence(d(100.0), 10, d(1.0), d(0.1));
    assert_eq!(prices.len(), 10);
    assert_eq!(prices[0], d(100.0));
    for p in prices.iter().skip(1) {
        assert!(*p >= d(0.1));
    }
}

#[test]
fn test_sequence_zero_length() {
    let prices = generate_random_walk_sequence(d(100.0), 0, d(1.0), d(0.1));
    assert_eq!(prices.len(), 1);
    assert_eq!(prices[0], d(100.0));
}

#[test]
fn test_multiple_sequences_shape() {
    let walks = generate_multiple_random_walks(3, d(50.0), 5, d(1.0), d(0.1));
    assert_eq!(walks.len(), 3);
    for walk in walks.iter() {
        assert_eq!(walk.len(), 5);
        assert_eq!(walk[0], d(50.0));
    }
}

#[test]
fn test_walk_floors_at_minimum() {
    // A zero-variance walk from below the floor is lifted onto the floor.
    let new_price = random_walk_price(d(0.01), d(0.0), d(0.0));
    assert_eq!(new_price, d(0.1));
}

#[test]
fn test_sequence_zero_deviation_is_constant() {
    // The deterministic control case: with both deviations zero the walk
    // never moves off the initial price.
    let prices = generate_random_walk_sequence(d(5.0), 6, d(0.0), d(0.0));
    assert_eq!(prices.len(), 6);
    for p in prices.iter() {
        assert_eq!(*p, d(5.0));
    }
}
