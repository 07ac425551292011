use etf_vault::error::VaultError;
use etf_vault::vault::{
    create_vault, remove_strategy, set_price_source, set_strategy, AssetConfig, AssetRole, PriceSource,
    Pubkey, Vault,
};

fn key(b: u8) -> Pubkey {
    Pubkey::new([b; 32])
}

fn asset(b: u8, weight: u8) -> AssetConfig {
    AssetConfig { mint: key(b), weight, ata: key(b + 100), decimals: 9, role: AssetRole::Held }
}

fn basket(weights: &[u8]) -> Vec<AssetConfig> {
    weights.iter().enumerate().map(|(i, w)| asset(i as u8 + 1, *w)).collect()
}

fn make(weights: &[u8]) -> Vault {
    create_vault(254, key(9), "MVPVault".to_string(), key(10), basket(weights)).unwrap()
}

#[test]
fn create_valid_vault() {
    let v = make(&[40, 30, 30]);
    assert_eq!(v.bump, 254);
    assert!(v.admin == key(9));
    assert_eq!(v.name, "MVPVault");
    assert_eq!(v.assets.len(), 3);
    assert!(v.marinade_strategy.is_none());
    assert_eq!(v.price_source, PriceSource::Switchboard);
    assert!(v.mock_oracle.is_none());
    assert_eq!(v.validate_weights(), Ok(()));
    let single = make(&[100]);
    assert_eq!(single.assets.len(), 1);
}

#[test]
fn create_rejects_bad_names() {
    let r = create_vault(1, key(9), String::new(), key(10), basket(&[100]));
    assert_eq!(r.err(), Some(VaultError::InvalidName));
    let long = "x".repeat(33);
    let r = create_vault(1, key(9), long, key(10), basket(&[100]));
    assert_eq!(r.err(), Some(VaultError::InvalidName));
    let edge = "y".repeat(32);
    assert!(create_vault(1, key(9), edge, key(10), basket(&[100])).is_ok());
}

#[test]
fn create_rejects_bad_asset_counts() {
    let r = create_vault(1, key(9), "v".to_string(), key(10), vec![]);
    assert_eq!(r.err(), Some(VaultError::InvalidAssetCount));
    let r = create_vault(1, key(9), "v".to_string(), key(10), basket(&[10; 11]));
    assert_eq!(r.err(), Some(VaultError::InvalidAssetCount));
    assert!(create_vault(1, key(9), "v".to_string(), key(10), basket(&[10; 10])).is_ok());
}

#[test]
fn create_rejects_bad_weights() {
    let r = create_vault(1, key(9), "v".to_string(), key(10), basket(&[40, 30, 20]));
    assert_eq!(r.err(), Some(VaultError::InvalidWeights));
    let r = create_vault(1, key(9), "v".to_string(), key(10), basket(&[50, 50, 0]));
    assert_eq!(r.err(), Some(VaultError::InvalidWeights));
    let r = create_vault(1, key(9), "v".to_string(), key(10), basket(&[200, 200, 200]));
    assert_eq!(r.err(), Some(VaultError::InvalidWeights));
}

#[test]
fn name_is_checked_before_weights() {
    let r = create_vault(1, key(9), String::new(), key(10), basket(&[1]));
    assert_eq!(r.err(), Some(VaultError::InvalidName));
}

#[test]
fn validate_weights_after_change() {
    let mut v = make(&[40, 30, 30]);
    v.assets[0].weight = 41;
    assert_eq!(v.validate_weights(), Err(VaultError::InvalidWeights));
}

#[test]
fn find_asset_by_mint() {
    let v = make(&[40, 30, 30]);
    let a = v.get_asset_by_mint(&key(2)).unwrap();
    assert_eq!(a.weight, 30);
    assert!(a.mint == key(2));
    assert!(v.get_asset_by_mint(&key(77)).is_none());
}

#[test]
fn account_space() {
    assert_eq!(Vault::space(8, 3), 8 + 1 + 32 + 4 + 8 + 32 + 4 + 3 * 65 + 1 + 32);
    assert_eq!(Vault::space(0, 0), 114);
}

#[test]
fn price_source_changes_by_admin_only() {
    let mut v = make(&[40, 30, 30]);
    assert_eq!(set_price_source(&mut v, &key(3), PriceSource::MockOracle, Some(key(5))), Err(VaultError::Unauthorized));
    assert_eq!(v.price_source, PriceSource::Switchboard);
    assert_eq!(set_price_source(&mut v, &key(9), PriceSource::MockOracle, None), Err(VaultError::InvalidPrice));
    assert_eq!(v.price_source, PriceSource::Switchboard);
    assert_eq!(set_price_source(&mut v, &key(9), PriceSource::MockOracle, Some(key(5))), Ok(()));
    assert_eq!(v.price_source, PriceSource::MockOracle);
    assert!(v.mock_oracle == Some(key(5)));
}

#[test]
fn strategy_set_and_removed_by_admin_only() {
    let mut v = make(&[40, 30, 30]);
    assert_eq!(set_strategy(&mut v, &key(3), key(6)), Err(VaultError::Unauthorized));
    assert!(v.marinade_strategy.is_none());
    assert_eq!(set_strategy(&mut v, &key(9), key(6)), Ok(()));
    assert!(v.marinade_strategy == Some(key(6)));
    assert_eq!(remove_strategy(&mut v, &key(3)), Err(VaultError::Unauthorized));
    assert!(v.marinade_strategy.is_some());
    assert_eq!(remove_strategy(&mut v, &key(9)), Ok(()));
    assert!(v.marinade_strategy.is_none());
}

#[test]
fn error_messages() {
    assert_eq!(VaultError::InvalidWeights.message(), "Sum of asset weights must equal 100");
    assert_eq!(VaultError::MathOverflow.message(), "Math overflow occurred");
}
