use etf_vault::error::VaultError;
use etf_vault::price::NormalizedPrice;
use etf_vault::valuation::compute_tvl;
use etf_vault::vault::Vault;

fn micro(p: i64) -> NormalizedPrice {
    NormalizedPrice::from_micro_usd(p).unwrap()
}

#[test]
fn share_price_without_shares_is_one_dollar() {
    assert_eq!(Vault::calculate_share_price(0, 0), Ok(1_000_000));
    assert_eq!(Vault::calculate_share_price(12_345, 0), Ok(1_000_000));
    assert_eq!(Vault::calculate_share_price(-5, 0), Ok(1_000_000));
    assert_eq!(Vault::calculate_share_price(i64::MAX, 0), Ok(1_000_000));
}

#[test]
fn share_price_formula() {
    assert_eq!(Vault::calculate_share_price(1_000_000_000, 1_000_000_000), Ok(1_000_000));
    assert_eq!(Vault::calculate_share_price(2_000_000_000, 1_000_000_000), Ok(2_000_000));
    // 1_000_000_007 * 10^9 / 3 = 333_333_335_666_666_666, then / 1000
    assert_eq!(Vault::calculate_share_price(1_000_000_007, 3), Ok(333_333_335_666_666));
}

#[test]
fn share_price_with_shares_but_no_value_is_an_error() {
    assert_eq!(Vault::calculate_share_price(0, 5), Err(VaultError::InsufficientAssets));
    assert_eq!(Vault::calculate_share_price(-1, 5), Err(VaultError::InsufficientAssets));
}

#[test]
fn share_price_overflow() {
    assert_eq!(Vault::calculate_share_price(10_000_000_000, u64::MAX), Err(VaultError::MathOverflow));
    assert_eq!(Vault::calculate_share_price(i64::MAX, 1), Err(VaultError::MathOverflow));
}

#[test]
fn shares_to_mint_formula() {
    assert_eq!(Vault::calculate_shares_to_mint(1_000_000_000, 1_000_000), Ok(1_000_000_000));
    assert_eq!(Vault::calculate_shares_to_mint(1_000_000_000, 2_000_000), Ok(500_000_000));
    assert_eq!(Vault::calculate_shares_to_mint(0, 1_000_000), Ok(0));
}

#[test]
fn shares_to_mint_errors() {
    assert_eq!(Vault::calculate_shares_to_mint(1, 0), Err(VaultError::MathOverflow));
    assert_eq!(Vault::calculate_shares_to_mint(1, -3), Err(VaultError::MathOverflow));
    assert_eq!(Vault::calculate_shares_to_mint(-1, 1_000_000), Err(VaultError::InvalidAmount));
    assert_eq!(Vault::calculate_shares_to_mint(i64::MAX, 1_000_000), Err(VaultError::MathOverflow));
}

#[test]
fn first_deposit_of_one_thousand_dollars() {
    let price = Vault::calculate_share_price(0, 0).unwrap();
    let minted = Vault::calculate_shares_to_mint(1_000_000_000, price).unwrap();
    assert_eq!(minted, 1_000_000_000);
    let after = Vault::calculate_share_price(1_000_000_000, minted).unwrap();
    assert_eq!(after, 1_000_000);
}

#[test]
fn tvl_sums_holdings_and_strategy() {
    let balances = vec![2_000_000u64, 1_000_000_000u64];
    let prices = vec![micro(50_000_000_000), micro(100_000_000)];
    let decimals = vec![8u8, 9u8];
    assert_eq!(compute_tvl(&balances, &prices, &decimals, 0), Ok(1_100_000_000));
    assert_eq!(compute_tvl(&balances, &prices, &decimals, 5), Ok(1_100_000_005));
    assert_eq!(compute_tvl(&vec![], &vec![], &vec![], 7), Ok(7));
}

#[test]
fn tvl_overflow() {
    let balances = vec![u64::MAX];
    let prices = vec![micro(1)];
    let decimals = vec![0u8];
    assert_eq!(compute_tvl(&balances, &prices, &decimals, 0), Err(VaultError::MathOverflow));
    let balances = vec![1_000_000u64];
    let prices = vec![micro(1_000_000)];
    let decimals = vec![6u8];
    assert_eq!(compute_tvl(&balances, &prices, &decimals, u64::MAX), Err(VaultError::MathOverflow));
}

#[test]
fn tvl_of_three_asset_basket() {
    let btc = micro(50_000_000_000);
    let eth = micro(3_000_000_000);
    let sol = micro(100_000_000);
    assert_eq!(
        Vault::calculate_tvl_from_balances(2_000_000, 0, 1_000_000_000, &btc, &eth, &sol),
        Ok(1_100_000_000)
    );
    // 1 ETH in wei at $3,000 overflows i64 before it is scaled down
    assert_eq!(
        Vault::calculate_tvl_from_balances(0, 1_000_000_000_000_000_000, 0, &btc, &eth, &sol),
        Err(VaultError::MathOverflow)
    );
}
