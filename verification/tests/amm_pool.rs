use sanctifier::amm::{calculate_liquidity_burn, calculate_liquidity_mint, calculate_swap_output, integer_sqrt};

#[test]
fn test_basic_swap() {
    // Pool with 1000 of each token, 0.3% fee
    let output = calculate_swap_output(1000, 1000, 100, 30).unwrap();
    assert!(output > 0);
    assert!(output < 100); // Should be less due to slippage and fees
}

#[test]
fn test_initial_liquidity() {
    let liquidity = calculate_liquidity_mint(0, 0, 1000, 1000, 0).unwrap();
    assert_eq!(liquidity, 1000); // sqrt(1000 * 1000) = 1000
}

#[test]
fn test_add_liquidity() {
    // Existing pool: 1000 A, 2000 B, 500 LP tokens
    let liquidity = calculate_liquidity_mint(1000, 2000, 100, 200, 500).unwrap();
    assert_eq!(liquidity, 50); // (100 * 500) / 1000 = 50
}

#[test]
fn test_remove_liquidity() {
    // Pool: 1000 A, 2000 B, 500 LP tokens, burn 100
    let (amount_a, amount_b) = calculate_liquidity_burn(1000, 2000, 100, 500).unwrap();
    assert_eq!(amount_a, 200); // (1000 * 100) / 500 = 200
    assert_eq!(amount_b, 400); // (2000 * 100) / 500 = 400
}

#[test]
fn swap_exact_output_value() {
    // (1000 * 100 * 9970) / ((1000 + 100) * 10000) = 90
    assert_eq!(calculate_swap_output(1000, 1000, 100, 30), Ok(90));
}

#[test]
fn integer_sqrt_values() {
    assert_eq!(integer_sqrt(0), 0);
    assert_eq!(integer_sqrt(1), 1);
    assert_eq!(integer_sqrt(2), 1);
    assert_eq!(integer_sqrt(3), 1);
    assert_eq!(integer_sqrt(8), 2);
    assert_eq!(integer_sqrt(9), 3);
    assert_eq!(integer_sqrt(1_000_000), 1000);
    assert_eq!(integer_sqrt(u128::MAX), u64::MAX as u128);
}

#[test]
fn amm_errors() {
    assert_eq!(calculate_swap_output(1000, 1000, 0, 30), Err("Amount in must be positive"));
    assert_eq!(calculate_swap_output(0, 1000, 10, 30), Err("Reserves must be positive"));
    assert_eq!(calculate_swap_output(1000, 1000, 10, 10000), Err("Fee must be less than 100%"));
    assert_eq!(calculate_liquidity_mint(0, 0, 0, 10, 0), Err("Amounts must be positive"));
    assert_eq!(calculate_liquidity_burn(1000, 1000, 0, 10), Err("Liquidity must be positive"));
    assert_eq!(calculate_liquidity_burn(1000, 1000, 5, 0), Err("Total supply is zero"));
}

#[test]
fn swap_keeps_product_on_example() {
    let (x, y, dx) = (5000u128, 3000u128, 700u128);
    let dy = calculate_swap_output(x, y, dx, 30).unwrap();
    assert!((x + dx) * (y - dy) >= x * y);
    assert!(dy < y);
    let more = calculate_swap_output(x, y, dx + 100, 30).unwrap();
    assert!(more >= dy);
    let cheaper = calculate_swap_output(x, y, dx, 10).unwrap();
    assert!(cheaper >= dy);
}

#[test]
fn mint_then_burn_does_not_profit_on_example() {
    let (ra, rb, ts) = (1000u128, 2000u128, 500u128);
    let lp = calculate_liquidity_mint(ra, rb, 123, 250, ts).unwrap();
    let (a, b) = calculate_liquidity_burn(ra + 123, rb + 250, lp, ts + lp).unwrap();
    assert!(a <= 123);
    assert!(b <= 250);
    assert_eq!(calculate_liquidity_mint(0, 0, 777, 777, 0), Ok(777));
}

#[test]
fn swap_follows_documented_formula() {
    // (1000 * 1 * 5000) / ((1 + 1) * 10000) = 250
    assert_eq!(calculate_swap_output(1, 1000, 1, 5000), Ok(250));
    assert_eq!(calculate_swap_output(10000, 1, 1, 0), Err("Output amount too small"));
}

#[test]
fn much_higher_fee_pays_less() {
    let low = calculate_swap_output(5000, 900000, 1000, 30).unwrap();
    let high = calculate_swap_output(5000, 900000, 1000, 9999).unwrap();
    assert!(high < low);
    assert_eq!(calculate_swap_output(999999, 1000, 100, 9999), Err("Output amount too small"));
}
