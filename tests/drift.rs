use etf_vault::error::VaultError;
use etf_vault::price::NormalizedPrice;
use etf_vault::rebalance::{evaluate_drift, plan_rebalance, rebalance, SwapInstruction};
use etf_vault::vault::{create_vault, AssetConfig, AssetRole, Pubkey};

fn micro(p: i64) -> NormalizedPrice {
    NormalizedPrice::from_micro_usd(p).unwrap()
}

fn dollars(n: usize) -> Vec<NormalizedPrice> {
    (0..n).map(|_| micro(1_000_000)).collect()
}

#[test]
fn empty_pool_needs_no_rebalance() {
    let balances = vec![0u64, 0, 0];
    let prices = vec![micro(50_000_000_000), micro(3_000_000_000), micro(100_000_000)];
    let weights = vec![40u8, 30, 30];
    let decimals = vec![8u8, 9, 9];
    let report = evaluate_drift(&balances, &prices, &weights, &decimals, 5).unwrap();
    assert!(!report.needs_rebalance);
    assert_eq!(report.total_usd, 0);
    for e in report.entries.iter() {
        assert_eq!(e.current_weight, 0);
        assert_eq!(e.drift, 0);
        assert!(!e.exceeds_threshold);
    }
}

#[test]
fn drift_at_threshold_does_not_exceed() {
    // 45% held against a 40% target with a 5% threshold
    let balances = vec![45_000_000u64, 55_000_000];
    let weights = vec![40u8, 60];
    let decimals = vec![6u8, 6];
    let report = evaluate_drift(&balances, &dollars(2), &weights, &decimals, 5).unwrap();
    assert_eq!(report.total_usd, 100_000_000);
    assert_eq!(report.entries[0].current_weight, 45);
    assert_eq!(report.entries[0].drift, 5);
    assert!(!report.entries[0].exceeds_threshold);
    assert_eq!(report.entries[1].drift, -5);
    assert!(!report.entries[1].exceeds_threshold);
    assert!(!report.needs_rebalance);
}

#[test]
fn drift_past_threshold_exceeds() {
    let balances = vec![46_000_000u64, 54_000_000];
    let weights = vec![40u8, 60];
    let decimals = vec![6u8, 6];
    let report = evaluate_drift(&balances, &dollars(2), &weights, &decimals, 5).unwrap();
    assert_eq!(report.entries[0].drift, 6);
    assert!(report.entries[0].exceeds_threshold);
    assert_eq!(report.entries[1].drift, -6);
    assert!(report.entries[1].exceeds_threshold);
    assert_eq!(report.entries[0].target_usd, 40_000_000);
    assert_eq!(report.entries[0].current_usd, 46_000_000);
    assert!(report.needs_rebalance);
}

#[test]
fn drift_overflow() {
    let balances = vec![u64::MAX];
    let report = evaluate_drift(&balances, &vec![micro(1)], &vec![100u8], &vec![0u8], 5);
    assert_eq!(report.err(), Some(VaultError::MathOverflow));
}

#[test]
fn plan_moves_excess_to_deficit() {
    let balances = vec![80_000_000u64, 20_000_000];
    let weights = vec![50u8, 50];
    let decimals = vec![6u8, 6];
    let prices = dollars(2);
    let report = evaluate_drift(&balances, &prices, &weights, &decimals, 5).unwrap();
    let plan = plan_rebalance(&report, &prices, &decimals).unwrap();
    assert_eq!(
        plan,
        vec![SwapInstruction { from_asset: 0, to_asset: 1, amount_in: 30_000_000, min_amount_out: 29_700_000 }]
    );
}

#[test]
fn plan_matches_greedily_in_order() {
    let balances = vec![70_000_000u64, 10_000_000, 20_000_000];
    let weights = vec![40u8, 30, 30];
    let decimals = vec![6u8, 6, 6];
    let prices = dollars(3);
    let report = evaluate_drift(&balances, &prices, &weights, &decimals, 5).unwrap();
    let plan = plan_rebalance(&report, &prices, &decimals).unwrap();
    assert_eq!(
        plan,
        vec![
            SwapInstruction { from_asset: 0, to_asset: 1, amount_in: 20_000_000, min_amount_out: 19_800_000 },
            SwapInstruction { from_asset: 0, to_asset: 2, amount_in: 10_000_000, min_amount_out: 9_900_000 },
        ]
    );
}

#[test]
fn plan_converts_at_each_assets_price() {
    // BTC at $50,000 (8 decimals) is $10,000 over; USDC at $1 (6 decimals) is $10,000 under
    let balances = vec![100_000_000u64, 40_000_000_000];
    let weights = vec![20u8, 80];
    let decimals = vec![8u8, 6];
    let prices = vec![micro(50_000_000_000), micro(1_000_000)];
    let report = evaluate_drift(&balances, &prices, &weights, &decimals, 5).unwrap();
    assert_eq!(report.total_usd, 90_000_000_000);
    let plan = plan_rebalance(&report, &prices, &decimals).unwrap();
    // total $90,000; BTC target $18,000 so $32,000 excess; USDC target $72,000 so $32,000 deficit
    assert_eq!(
        plan,
        vec![SwapInstruction {
            from_asset: 0,
            to_asset: 1,
            amount_in: 64_000_000,
            min_amount_out: 31_680_000_000
        }]
    );
}

#[test]
fn plan_is_deterministic() {
    let balances = vec![70_000_000u64, 10_000_000, 20_000_000];
    let weights = vec![40u8, 30, 30];
    let decimals = vec![6u8, 6, 6];
    let prices = dollars(3);
    let report = evaluate_drift(&balances, &prices, &weights, &decimals, 5).unwrap();
    let first = plan_rebalance(&report, &prices, &decimals).unwrap();
    let second = plan_rebalance(&report, &prices, &decimals).unwrap();
    assert_eq!(first, second);
}

#[test]
fn plan_closes_gaps_below_one_dollar() {
    // $1.50 against $0.50 at 50/50: fifty cents moves
    let balances = vec![1_500_000u64, 500_000];
    let weights = vec![50u8, 50];
    let decimals = vec![6u8, 6];
    let prices = dollars(2);
    let report = evaluate_drift(&balances, &prices, &weights, &decimals, 5).unwrap();
    assert!(report.needs_rebalance);
    let plan = plan_rebalance(&report, &prices, &decimals).unwrap();
    assert_eq!(
        plan,
        vec![SwapInstruction { from_asset: 0, to_asset: 1, amount_in: 500_000, min_amount_out: 495_000 }]
    );
}

#[test]
fn plan_keeps_a_gap_smaller_than_one_native_unit() {
    // one micro-dollar of BTC is less than one satoshi: the swap sells nothing
    let prices = vec![micro(50_000_000_000), micro(1_000_000)];
    let decimals = vec![8u8, 6];
    let report = etf_vault::rebalance::DriftReport {
        entries: vec![
            etf_vault::rebalance::DriftEntry {
                current_usd: 1,
                target_usd: 0,
                current_weight: 100,
                target_weight: 0,
                drift: 100,
                exceeds_threshold: true,
            },
            etf_vault::rebalance::DriftEntry {
                current_usd: 0,
                target_usd: 1,
                current_weight: 0,
                target_weight: 100,
                drift: -100,
                exceeds_threshold: true,
            },
        ],
        total_usd: 1,
        needs_rebalance: true,
    };
    let plan = plan_rebalance(&report, &prices, &decimals).unwrap();
    assert_eq!(plan, vec![SwapInstruction { from_asset: 0, to_asset: 1, amount_in: 0, min_amount_out: 0 }]);
}

#[test]
fn plan_is_bounded_to_six_swaps() {
    // two assets $12 over and eight $3 under: eight swaps would close every gap
    let mut balances = vec![22_000_000u64, 22_000_000];
    balances.extend(vec![7_000_000u64; 8]);
    let weights = vec![10u8; 10];
    let decimals = vec![6u8; 10];
    let prices = dollars(10);
    let report = evaluate_drift(&balances, &prices, &weights, &decimals, 1).unwrap();
    let plan = plan_rebalance(&report, &prices, &decimals).unwrap();
    assert_eq!(plan.len(), 6);
}

fn key(b: u8) -> Pubkey {
    Pubkey::new([b; 32])
}

#[test]
fn rebalance_by_admin() {
    let assets = vec![
        AssetConfig { mint: key(1), weight: 50, ata: key(11), decimals: 6, role: AssetRole::Held },
        AssetConfig { mint: key(2), weight: 50, ata: key(12), decimals: 6, role: AssetRole::Held },
    ];
    let v = create_vault(1, key(9), "v".to_string(), key(10), assets).unwrap();
    let prices = dollars(2);
    let balances = vec![80_000_000u64, 20_000_000];
    assert_eq!(rebalance(&v, &key(3), &balances, &prices, 5).err(), Some(VaultError::Unauthorized));
    let plan = rebalance(&v, &key(9), &balances, &prices, 5).unwrap();
    assert_eq!(plan.len(), 1);
    assert_eq!(plan[0].amount_in, 30_000_000);
    let calm = vec![52_000_000u64, 48_000_000];
    assert!(rebalance(&v, &key(9), &calm, &prices, 5).unwrap().is_empty());
    let empty = vec![0u64, 0];
    assert!(rebalance(&v, &key(9), &empty, &prices, 5).unwrap().is_empty());
}
