use etf_vault::error::StrategyError;
use etf_vault::strategy::{
    check_stake, complete_unstake, harvest, initialize, report_value, stake, undelegate_amount, unstake,
};
use etf_vault::vault::Pubkey;

fn vault_key() -> Pubkey {
    Pubkey::new([4u8; 32])
}

#[test]
fn fresh_ledger_is_empty() {
    let a = initialize(7, vault_key());
    assert_eq!(a.bump, 7);
    assert!(a.vault == vault_key());
    assert_eq!(a.total_staked, 0);
    assert_eq!(a.msol_balance, 0);
    assert_eq!(report_value(&a), 0);
    assert_eq!(harvest(&a), 0);
}

#[test]
fn stake_grows_principal_and_records_value() {
    let mut a = initialize(7, vault_key());
    assert_eq!(check_stake(&a, 1_000_000), Ok(()));
    assert_eq!(stake(&mut a, 1_000_000, 990_000), Ok(()));
    assert_eq!(a.total_staked, 1_000_000);
    assert_eq!(a.msol_balance, 990_000);
    assert_eq!(stake(&mut a, 500_000, 1_500_000), Ok(()));
    assert_eq!(a.total_staked, 1_500_000);
    assert_eq!(report_value(&a), 1_500_000);
}

#[test]
fn stake_errors_leave_ledger_unchanged() {
    let mut a = initialize(7, vault_key());
    assert_eq!(check_stake(&a, 0), Err(StrategyError::ZeroAmount));
    assert_eq!(stake(&mut a, 0, 5), Err(StrategyError::ZeroAmount));
    assert_eq!(a.msol_balance, 0);
    stake(&mut a, u64::MAX, 10).unwrap();
    assert_eq!(check_stake(&a, 1), Err(StrategyError::MathError));
    assert_eq!(stake(&mut a, 1, 99), Err(StrategyError::MathError));
    assert_eq!(a.total_staked, u64::MAX);
    assert_eq!(a.msol_balance, 10);
}

#[test]
fn unstake_checks() {
    assert_eq!(unstake(0, 10), Err(StrategyError::ZeroAmount));
    assert_eq!(unstake(11, 10), Err(StrategyError::InsufficientBalance));
    assert_eq!(unstake(10, 10), Ok(()));
}

#[test]
fn unwind_keeps_residual_yield() {
    let mut a = initialize(7, vault_key());
    stake(&mut a, 1_000_000, 1_000_000).unwrap();
    // the position grew to 1_100_000 through yield
    a.msol_balance = 1_100_000;
    assert_eq!(undelegate_amount(&a, 500_000), Ok(550_000));
    assert_eq!(undelegate_amount(&a, 1_000_001), Err(StrategyError::MathError));
    assert_eq!(complete_unstake(&mut a, 500_000, 550_000), Ok(500_000));
    assert_eq!(a.total_staked, 500_000);
    assert_eq!(a.msol_balance, 550_000);
    assert_eq!(complete_unstake(&mut a, 2_000_000, 0), Err(StrategyError::MathError));
    assert_eq!(a.total_staked, 500_000);
}
