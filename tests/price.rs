use etf_vault::error::VaultError;
use etf_vault::price::NormalizedPrice;
use etf_vault::vault::Vault;

fn micro(p: i64) -> NormalizedPrice {
    NormalizedPrice::from_micro_usd(p).unwrap()
}

#[test]
fn normalize_divides_down_extra_decimals() {
    // $50,000 quoted with exponent -8
    let p = NormalizedPrice::from_switchboard_quote(5_000_000_000_000, -8).unwrap();
    assert_eq!(p.price_usd, 50_000_000_000);
    assert_eq!(p.original_price, 5_000_000_000_000);
    assert_eq!(p.expo, -8);
}

#[test]
fn normalize_multiplies_up_missing_decimals() {
    let p = NormalizedPrice::from_switchboard_quote(100, 0).unwrap();
    assert_eq!(p.price_usd, 100_000_000);
    let p = NormalizedPrice::from_switchboard_quote(25, -2).unwrap();
    assert_eq!(p.price_usd, 250_000);
}

#[test]
fn normalize_keeps_six_decimals() {
    let p = NormalizedPrice::from_switchboard_quote(123, -6).unwrap();
    assert_eq!(p.price_usd, 123);
}

#[test]
fn normalize_rejects_non_positive() {
    assert_eq!(NormalizedPrice::from_switchboard_quote(5, -8).unwrap_err(), VaultError::InvalidPrice);
    assert_eq!(NormalizedPrice::from_switchboard_quote(-5, -6).unwrap_err(), VaultError::InvalidPrice);
    assert_eq!(NormalizedPrice::from_switchboard_quote(0, 0).unwrap_err(), VaultError::InvalidPrice);
}

#[test]
fn normalize_overflow() {
    assert_eq!(NormalizedPrice::from_switchboard_quote(1, 13).unwrap_err(), VaultError::MathOverflow);
    assert_eq!(NormalizedPrice::from_switchboard_quote(1, -25).unwrap_err(), VaultError::MathOverflow);
    assert_eq!(NormalizedPrice::from_switchboard_quote(i64::MAX, 0).unwrap_err(), VaultError::MathOverflow);
}

#[test]
fn micro_usd_price() {
    let p = micro(3_000_000_000);
    assert_eq!(p.price_usd, 3_000_000_000);
    assert_eq!(p.expo, -6);
    assert_eq!(NormalizedPrice::from_micro_usd(0).unwrap_err(), VaultError::InvalidPrice);
}

#[test]
fn usd_to_tokens_and_back() {
    let btc = micro(50_000_000_000);
    // $1,000 buys 0.02 BTC
    assert_eq!(btc.usd_to_tokens(1_000_000_000, 8), Ok(2_000_000));
    assert_eq!(btc.tokens_to_usd(2_000_000, 8), Ok(1_000_000_000));
}

#[test]
fn round_trip_loses_less_than_one_unit() {
    let eth = micro(3_000_000_000);
    let x = 1_000_000_001i64;
    let tokens = eth.usd_to_tokens(x, 9).unwrap();
    assert_eq!(tokens, 333_333_333);
    let back = eth.tokens_to_usd(tokens as u64, 9).unwrap();
    assert_eq!(back, 999_999_999);
    assert!(back <= x);
    // loss below the value of one native unit (3 micro-dollars) plus one
    assert!((x - back) < 3 + 1);
    for d in 0u8..=18 {
        let p = micro(1_234_567);
        let x = 987_654_321i64;
        if let Ok(t) = p.usd_to_tokens(x, d) {
            let back = p.tokens_to_usd(t as u64, d).unwrap();
            assert!(back <= x);
            let scale = 10i128.pow(d as u32);
            assert!(((x - back) as i128) * scale < 1_234_567 + scale);
        }
    }
}

#[test]
fn conversions_overflow() {
    let eth = micro(3_000_000_000);
    assert_eq!(eth.tokens_to_usd(u64::MAX, 9), Err(VaultError::MathOverflow));
    assert_eq!(eth.tokens_to_usd(100_000_000_000_000_000, 18), Err(VaultError::MathOverflow));
    assert_eq!(eth.tokens_to_usd(1, 19), Err(VaultError::MathOverflow));
    assert_eq!(eth.usd_to_tokens(i64::MAX, 9), Err(VaultError::MathOverflow));
}

#[test]
fn token_amount_to_usd_micro_scales() {
    assert_eq!(Vault::token_amount_to_usd_micro(1_000_000_000, 9), Ok(1_000_000));
    assert_eq!(Vault::token_amount_to_usd_micro(5, 2), Ok(50_000));
    assert_eq!(Vault::token_amount_to_usd_micro(1_234, 6), Ok(1_234));
    assert_eq!(Vault::token_amount_to_usd_micro(1, 30), Err(VaultError::MathOverflow));
    assert_eq!(Vault::token_amount_to_usd_micro(u64::MAX, 0), Err(VaultError::MathOverflow));
}

#[test]
fn usd_micro_to_token_amount_scales() {
    assert_eq!(Vault::usd_micro_to_token_amount(1_000_000, 9), Ok(1_000_000_000));
    assert_eq!(Vault::usd_micro_to_token_amount(1_000_000, 2), Ok(100));
    assert_eq!(Vault::usd_micro_to_token_amount(-1, 9), Err(VaultError::InvalidAmount));
    assert_eq!(Vault::usd_micro_to_token_amount(i64::MAX, 9), Err(VaultError::MathOverflow));
}

#[test]
fn token_amount_from_usd_allocation() {
    let btc = micro(50_000_000_000);
    assert_eq!(Vault::calculate_token_amount_from_usd(1_000_000_000, &btc, 8), Ok(2_000_000));
    assert_eq!(Vault::calculate_token_amount_from_usd(-1_000_000_000, &btc, 8), Err(VaultError::InvalidAmount));
}
