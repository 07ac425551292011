use etf_vault::confidential::{compute_rebalancing, rebalance_confidential, RebalancingInput, RebalancingResult};
use etf_vault::vault::{create_vault, set_price_source, AssetConfig, AssetRole, PriceSource, Pubkey};
use etf_vault::error::VaultError;

fn input(current: [u8; 3], threshold: u8) -> RebalancingInput {
    RebalancingInput {
        btc_balance: 1_000,
        eth_balance: 2_000,
        sol_balance: 3_000,
        btc_price: 1_000_000,
        eth_price: 1_000_000,
        sol_price: 2_000_000,
        btc_weight: 40,
        eth_weight: 30,
        sol_weight: 30,
        btc_current: current[0],
        eth_current: current[1],
        sol_current: current[2],
        threshold,
    }
}

#[test]
fn confidential_drift_at_threshold() {
    let r = compute_rebalancing(&input([45, 25, 30], 5)).unwrap();
    assert_eq!(
        r,
        RebalancingResult { needs_rebalance: false, btc_drift: 5, eth_drift: -5, sol_drift: 0, total_tvl: 9_000 }
    );
}

#[test]
fn confidential_drift_past_threshold() {
    let r = compute_rebalancing(&input([46, 24, 30], 5)).unwrap();
    assert!(r.needs_rebalance);
    assert_eq!(r.btc_drift, 6);
    assert_eq!(r.eth_drift, -6);
}

#[test]
fn confidential_total_overflow() {
    let mut i = input([40, 30, 30], 5);
    i.btc_balance = u64::MAX;
    i.btc_price = 2_000_000;
    assert_eq!(compute_rebalancing(&i).err(), Some(VaultError::MathOverflow));
}

#[test]
fn confidential_instruction_data() {
    let admin = Pubkey::new([9u8; 32]);
    let assets = vec![AssetConfig {
        mint: Pubkey::new([1u8; 32]),
        weight: 100,
        ata: Pubkey::new([2u8; 32]),
        decimals: 9,
        role: AssetRole::Held,
    }];
    let mut v = create_vault(1, admin, "v".to_string(), Pubkey::new([3u8; 32]), assets).unwrap();
    let pk = [5u8; 32];
    let funds = [6u8; 32];
    assert_eq!(rebalance_confidential(&v, &admin, 1, &pk, 2, &funds).err(), Some(VaultError::InvalidPrice));
    set_price_source(&mut v, &admin, PriceSource::MockOracle, Some(Pubkey::new([4u8; 32]))).unwrap();
    assert_eq!(
        rebalance_confidential(&v, &Pubkey::new([8u8; 32]), 1, &pk, 2, &funds).err(),
        Some(VaultError::Unauthorized)
    );
    let data = rebalance_confidential(&v, &admin, 0x0102, &pk, 0x03, &funds).unwrap();
    assert_eq!(data.len(), 96);
    assert_eq!(&data[0..8], &[126, 197, 44, 141, 35, 123, 172, 126]);
    assert_eq!(&data[8..16], &[2, 1, 0, 0, 0, 0, 0, 0]);
    assert_eq!(&data[16..48], &pk);
    assert_eq!(data[48], 3);
    assert_eq!(&data[49..64], &[0u8; 15]);
    assert_eq!(&data[64..96], &funds);
}

#[test]
fn confidential_empty_pool_needs_no_rebalance() {
    let mut i = input([0, 0, 0], 5);
    i.btc_balance = 0;
    i.eth_balance = 0;
    i.sol_balance = 0;
    let r = compute_rebalancing(&i).unwrap();
    assert_eq!(
        r,
        RebalancingResult { needs_rebalance: false, btc_drift: 0, eth_drift: 0, sol_drift: 0, total_tvl: 0 }
    );
}
