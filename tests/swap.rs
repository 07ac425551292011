use etf_vault::error::VaultError;
use etf_vault::swap::MockSwap;

#[test]
fn test_swap_calculation() {
    // 0.1 BTC at $50,000 for ETH at $3,000 (8 and 18 decimals)
    let amount_in = 10_000_000u64;
    let btc_price = 50_000_00000000i64;
    let eth_price = 3_000_00000000i64;
    let btc_expo = -8i32;
    let eth_expo = -8i32;
    let btc_decimals = 8u8;
    let eth_decimals = 18u8;

    let result = MockSwap::calculate_swap_output(
        amount_in,
        btc_price,
        btc_expo,
        eth_price,
        eth_expo,
        btc_decimals,
        eth_decimals,
    );

    assert!(result.is_ok());
    let amount_out = result.unwrap();
    assert!(amount_out > 1_600_000_000_000_000_000u64);
    assert!(amount_out < 1_700_000_000_000_000_000u64);
}

#[test]
fn test_sol_to_usdc_swap() {
    // 1 SOL at $100 for USDC at $1 (9 and 6 decimals)
    let amount_in = 1_000_000_000u64;
    let sol_price = 100_00000000i64;
    let usdc_price = 1_00000000i64;
    let sol_expo = -8i32;
    let usdc_expo = -8i32;
    let sol_decimals = 9u8;
    let usdc_decimals = 6u8;

    let result = MockSwap::calculate_swap_output(
        amount_in,
        sol_price,
        sol_expo,
        usdc_price,
        usdc_expo,
        sol_decimals,
        usdc_decimals,
    );

    assert!(result.is_ok());
    let amount_out = result.unwrap();
    assert_eq!(amount_out, 100_000_000u64);
}

#[test]
fn swap_output_exact_value() {
    // 10_000_000 * 5e12 / 3e11 = 166_666_666, then ten more decimals
    let out = MockSwap::calculate_swap_output(10_000_000, 5_000_000_000_000, -8, 300_000_000_000, -8, 8, 18);
    assert_eq!(out, Ok(1_666_666_660_000_000_000));
}

#[test]
fn swap_output_across_exponents() {
    // from quote has exponent -6, to quote -8: value is scaled up by 100
    let out = MockSwap::calculate_swap_output(1_000, 2_000_000, -6, 100_000_000, -8, 6, 6);
    assert_eq!(out, Ok(2_000));
    // and down when the from quote has more decimals
    let out = MockSwap::calculate_swap_output(1_000, 200_000_000, -8, 1_000_000, -6, 6, 6);
    assert_eq!(out, Ok(2_000));
}

#[test]
fn swap_output_zero_is_invalid_amount() {
    let out = MockSwap::calculate_swap_output(1, 1, -6, 1_000_000, -6, 6, 6);
    assert_eq!(out, Err(VaultError::InvalidAmount));
}

#[test]
fn swap_output_zero_price_overflows() {
    let out = MockSwap::calculate_swap_output(1_000, 1_000_000, -6, 0, -6, 6, 6);
    assert_eq!(out, Err(VaultError::MathOverflow));
}

#[test]
fn swap_output_too_large_for_u64() {
    let out = MockSwap::calculate_swap_output(u64::MAX, 1_000_000, -6, 1, -6, 6, 6);
    assert_eq!(out, Err(VaultError::MathOverflow));
}

#[test]
fn swap_output_exponent_gap_too_wide() {
    let out = MockSwap::calculate_swap_output(1, 1, 20, 1, -20, 6, 6);
    assert_eq!(out, Err(VaultError::MathOverflow));
}
