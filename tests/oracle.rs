use etf_vault::error::VaultError;
use etf_vault::bytes::read_le;
use etf_vault::oracle::{initialize_mock_oracle, update_mock_oracle};
use etf_vault::vault::{Pubkey, Vault};

fn feed(mantissa: i128) -> Vec<u8> {
    let mut data = vec![0u8; 120];
    data[72..88].copy_from_slice(&mantissa.to_le_bytes());
    data[88..92].copy_from_slice(&(-18i32).to_le_bytes());
    data
}

#[test]
fn reads_little_endian() {
    let data = vec![0x01u8, 0x02, 0x03, 0x04];
    assert_eq!(read_le(&data, 0, 4), 0x04030201);
    assert_eq!(read_le(&data, 1, 2), 0x0302);
    assert_eq!(read_le(&data, 2, 0), 0);
    let full = vec![0xffu8; 16];
    assert_eq!(read_le(&full, 0, 16), u128::MAX);
}

#[test]
fn feed_price_is_read_and_normalised() {
    // mantissa 5e15 -> raw price 5_000_000 with exponent -8 -> 50_000 micro-dollars
    let p = Vault::verify_oracle_quote(&feed(5_000_000_000_000_000), 0).unwrap();
    assert_eq!(p.original_price, 5_000_000);
    assert_eq!(p.expo, -8);
    assert_eq!(p.price_usd, 50_000);
}

#[test]
fn feed_errors() {
    assert_eq!(Vault::verify_oracle_quote(&vec![0u8; 99], 0).err(), Some(VaultError::InvalidQuote));
    assert_eq!(Vault::verify_oracle_quote(&feed(0), 0).err(), Some(VaultError::InvalidQuote));
    assert_eq!(Vault::verify_oracle_quote(&feed(-5), 0).err(), Some(VaultError::InvalidQuote));
    assert_eq!(
        Vault::verify_oracle_quote(&feed(1_000_000_000_000_000_000), 0).err(),
        Some(VaultError::InvalidQuote)
    );
    // raw price 20_000_000 is above the ceiling
    assert_eq!(
        Vault::verify_oracle_quote(&feed(20_000_000_000_000_000), 0).err(),
        Some(VaultError::InvalidPrice)
    );
    // raw price 50 normalises to zero micro-dollars
    assert_eq!(Vault::verify_oracle_quote(&feed(50_000_000_000), 0).err(), Some(VaultError::InvalidPrice));
    // mantissa below 10^9 gives a raw price of zero
    assert_eq!(Vault::verify_oracle_quote(&feed(999_999_999), 0).err(), Some(VaultError::InvalidPrice));
}

#[test]
fn mock_oracle_lifecycle() {
    let admin = Pubkey::new([1u8; 32]);
    let other = Pubkey::new([2u8; 32]);
    let mut o = initialize_mock_oracle(admin, 1_000, 3);
    assert_eq!(o.btc_price, 0);
    assert_eq!(o.last_update, 1_000);
    // no prices yet
    assert_eq!(o.quotes(1_010, 120).err(), Some(VaultError::InvalidPrice));
    assert_eq!(
        update_mock_oracle(&mut o, &other, 50_000_000_000, 3_000_000_000, 100_000_000, 1_100),
        Err(VaultError::Unauthorized)
    );
    assert_eq!(
        update_mock_oracle(&mut o, &admin, 0, 3_000_000_000, 100_000_000, 1_100),
        Err(VaultError::InvalidPrice)
    );
    assert_eq!(
        update_mock_oracle(&mut o, &admin, 10_000_000_000_000, 3_000_000_000, 100_000_000, 1_100),
        Err(VaultError::InvalidPrice)
    );
    assert_eq!(o.last_update, 1_000);
    assert_eq!(update_mock_oracle(&mut o, &admin, 50_000_000_000, 3_000_000_000, 100_000_000, 1_100), Ok(()));
    assert_eq!(o.sol_price, 100_000_000);
    let (btc, eth, sol) = o.quotes(1_219, 120).unwrap();
    assert_eq!(btc.price_usd, 50_000_000_000);
    assert_eq!(eth.price_usd, 3_000_000_000);
    assert_eq!(sol.price_usd, 100_000_000);
    assert_eq!(o.quotes(1_220, 120).err(), Some(VaultError::StaleQuote));
}
