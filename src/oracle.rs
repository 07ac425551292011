//! Oracle inputs: the price record of a Switchboard pull feed, and a mock
//! oracle that an authority keeps up to date.

use vstd::prelude::*;
use crate::error::VaultError;
use crate::price::{NormalizedPrice, quote_scales, scaled_price};
use crate::vault::{Pubkey, Vault, MAX_MOCK_PRICE};
use crate::bytes::{le_i128, read_le};

verus! {

/// The price a Switchboard pull feed's record holds, or the error that
/// reading it gives: the record must have at least 100 bytes, its mantissa
/// (an `i128` at bytes 72..88) must lie strictly between 0 and 10^18, the
/// price (the mantissa over 10^9) strictly between 0 and 10^7, and the price,
/// read with exponent -8, must normalise to a positive micro-dollar price.
pub open spec fn feed_quote(data: Seq<u8>) -> Result<int, VaultError> {
    if data.len() < 100 {
        Err(VaultError::InvalidQuote)
    } else {
        let mantissa = le_i128(data.subrange(72, 88));
        if !(0 < mantissa < 1_000_000_000_000_000_000) {
            Err(VaultError::InvalidQuote)
        } else {
            let raw = mantissa / 1_000_000_000;
            if !(0 < raw < 10_000_000) {
                Err(VaultError::InvalidPrice)
            } else {
                Ok(raw)
            }
        }
    }
}

impl Vault {
    /// Reads the price of a Switchboard pull feed from its account data (see
    /// `feed_quote`) and normalises it with exponent -8.
    pub fn verify_oracle_quote(price_data: &[u8], _current_timestamp: i64) -> (r: Result<
        NormalizedPrice,
        VaultError,
    >)
        ensures
            match feed_quote(price_data@) {
                Err(e) => r == Err::<NormalizedPrice, VaultError>(e),
                Ok(raw) => if scaled_price(raw, -8) > 0 {
                    r matches Ok(p) && p.price_usd == scaled_price(raw, -8) && p.original_price == raw
                        && p.expo == -8
                } else {
                    r == Err::<NormalizedPrice, VaultError>(VaultError::InvalidPrice)
                },
            },
    {
        if price_data.len() < 100 {
            return Err(VaultError::InvalidQuote);
        }
        let unsigned = read_le(price_data, 72, 16);
        if unsigned >= 0x8000_0000_0000_0000_0000_0000_0000_0000 {
            return Err(VaultError::InvalidQuote);
        }
        let mantissa = unsigned as i128;
        if mantissa <= 0 || mantissa >= 1_000_000_000_000_000_000 {
            return Err(VaultError::InvalidQuote);
        }
        let raw_price = (mantissa / 1_000_000_000) as i64;
        if raw_price <= 0 || raw_price >= 10_000_000 {
            return Err(VaultError::InvalidPrice);
        }
        proof {
            crate::math::lemma_pow10_values();
            reveal_with_fuel(crate::math::pow10, 3);
            assert(quote_scales(raw_price as int, -8));
        }
        NormalizedPrice::from_switchboard_quote(raw_price, -8)
    }
}

/// A price record kept by an authority, in micro-dollars.
#[derive(Clone, Copy, Debug)]
pub struct MockPriceOracle {
    /// Who may update the prices.
    pub authority: Pubkey,
    pub btc_price: i64,
    pub eth_price: i64,
    pub sol_price: i64,
    /// Unix time of the last update.
    pub last_update: i64,
    pub bump: u8,
}

impl MockPriceOracle {
    /// Bytes of a stored record: tag, authority, four `i64`s and the bump.
    pub const LEN: usize = 8 + 32 + 8 + 8 + 8 + 8 + 1;

    /// The three prices, normalised, if the record is fresh: fails with
    /// `StaleQuote` where `now - last_update` is `max_age` seconds or more,
    /// and with `InvalidPrice` where a price is not positive.
    pub fn quotes(&self, now: i64, max_age: i64) -> (r: Result<
        (NormalizedPrice, NormalizedPrice, NormalizedPrice),
        VaultError,
    >)
        ensures
            now - self.last_update >= max_age ==> r == Err::<
                (NormalizedPrice, NormalizedPrice, NormalizedPrice),
                VaultError,
            >(VaultError::StaleQuote),
            now - self.last_update < max_age && (self.btc_price <= 0 || self.eth_price <= 0
                || self.sol_price <= 0) ==> r == Err::<
                (NormalizedPrice, NormalizedPrice, NormalizedPrice),
                VaultError,
            >(VaultError::InvalidPrice),
            now - self.last_update < max_age && self.btc_price > 0 && self.eth_price > 0
                && self.sol_price > 0 ==> r == Ok::<
                (NormalizedPrice, NormalizedPrice, NormalizedPrice),
                VaultError,
            >(
                (
                    NormalizedPrice { price_usd: self.btc_price, original_price: self.btc_price, expo: -6i32 },
                    NormalizedPrice { price_usd: self.eth_price, original_price: self.eth_price, expo: -6i32 },
                    NormalizedPrice { price_usd: self.sol_price, original_price: self.sol_price, expo: -6i32 },
                ),
            ),
    {
        let age = now as i128 - self.last_update as i128;
        if age >= max_age as i128 {
            return Err(VaultError::StaleQuote);
        }
        let btc = match NormalizedPrice::from_micro_usd(self.btc_price) {
            Ok(p) => p,
            Err(e) => return Err(e),
        };
        let eth = match NormalizedPrice::from_micro_usd(self.eth_price) {
            Ok(p) => p,
            Err(e) => return Err(e),
        };
        let sol = match NormalizedPrice::from_micro_usd(self.sol_price) {
            Ok(p) => p,
            Err(e) => return Err(e),
        };
        Ok((btc, eth, sol))
    }
}

/// A fresh mock oracle: no prices yet, updated at `now`.
pub fn initialize_mock_oracle(authority: Pubkey, now: i64, bump: u8) -> (r: MockPriceOracle)
    ensures
        r == (MockPriceOracle {
            authority,
            btc_price: 0,
            eth_price: 0,
            sol_price: 0,
            last_update: now,
            bump,
        }),
{
    MockPriceOracle { authority, btc_price: 0, eth_price: 0, sol_price: 0, last_update: now, bump }
}

/// Whether a mock price is plausible: positive and below `MAX_MOCK_PRICE`.
pub open spec fn mock_price_valid(price: i64) -> bool {
    0 < price < MAX_MOCK_PRICE
}

/// Sets the three prices at time `now`. Only the oracle's authority may
/// (`Unauthorized`); every price must be plausible (`InvalidPrice`).
pub fn update_mock_oracle(
    oracle: &mut MockPriceOracle,
    authority: &Pubkey,
    btc_price: i64,
    eth_price: i64,
    sol_price: i64,
    now: i64,
) -> (r: Result<(), VaultError>)
    ensures
        authority@ != old(oracle).authority@ ==> r == Err::<(), VaultError>(VaultError::Unauthorized)
            && *final(oracle) == *old(oracle),
        authority@ == old(oracle).authority@ && !(mock_price_valid(btc_price) && mock_price_valid(
            eth_price,
        ) && mock_price_valid(sol_price)) ==> r == Err::<(), VaultError>(VaultError::InvalidPrice)
            && *final(oracle) == *old(oracle),
        authority@ == old(oracle).authority@ && mock_price_valid(btc_price) && mock_price_valid(
            eth_price,
        ) && mock_price_valid(sol_price) ==> r is Ok && *final(oracle) == (MockPriceOracle {
            btc_price,
            eth_price,
            sol_price,
            last_update: now,
            ..*old(oracle)
        }),
{
    if *authority != oracle.authority {
        return Err(VaultError::Unauthorized);
    }
    if !(btc_price > 0 && btc_price < MAX_MOCK_PRICE) || !(eth_price > 0 && eth_price < MAX_MOCK_PRICE)
        || !(sol_price > 0 && sol_price < MAX_MOCK_PRICE) {
        return Err(VaultError::InvalidPrice);
    }
    oracle.btc_price = btc_price;
    oracle.eth_price = eth_price;
    oracle.sol_price = sol_price;
    oracle.last_update = now;
    Ok(())
}

} // verus!
