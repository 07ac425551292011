//! Pricing of an asset-to-asset swap at oracle prices, without fees or slippage.

use vstd::prelude::*;
use crate::error::VaultError;
use crate::math::{scale_by_pow10, scale_i128, trunc_div, lemma_checked_div_i128};

verus! {

/// Output of swapping `amount_in` native units of one token for another at
/// the quotes `from_price × 10^from_expo` and `to_price × 10^to_expo`:
/// the input's value is brought to the output quote's exponent, divided by
/// the output price, and moved from the input's decimals to the output's.
/// Each division rounds toward zero.
pub open spec fn swap_output(
    amount_in: int,
    from_price: int,
    from_expo: int,
    to_price: int,
    to_expo: int,
    from_decimals: int,
    to_decimals: int,
) -> Result<int, VaultError> {
    match scale_by_pow10(amount_in * from_price, from_expo - to_expo) {
        None => Err(VaultError::MathOverflow),
        Some(adjusted) => {
            if to_price == 0 || !(i128::MIN <= trunc_div(adjusted, to_price) <= i128::MAX) {
                Err(VaultError::MathOverflow)
            } else {
                match scale_by_pow10(trunc_div(adjusted, to_price), to_decimals - from_decimals) {
                    None => Err(VaultError::MathOverflow),
                    Some(out) => {
                        if out <= 0 {
                            Err(VaultError::InvalidAmount)
                        } else if out > u64::MAX {
                            Err(VaultError::MathOverflow)
                        } else {
                            Ok(out)
                        }
                    },
                }
            }
        },
    }
}

/// Swap pricing at oracle quotes.
pub struct MockSwap;

impl MockSwap {
    /// Native units of the output token received for `amount_in` units of the
    /// input token (see `swap_output`). Fails with `MathOverflow` where a
    /// checked step fails or the output exceeds `u64`, and with `InvalidAmount`
    /// where the output is not positive.
    pub fn calculate_swap_output(
        amount_in: u64,
        from_price: i64,
        from_expo: i32,
        to_price: i64,
        to_expo: i32,
        from_decimals: u8,
        to_decimals: u8,
    ) -> (r: Result<u64, VaultError>)
        ensures
            match swap_output(
                amount_in as int,
                from_price as int,
                from_expo as int,
                to_price as int,
                to_expo as int,
                from_decimals as int,
                to_decimals as int,
            ) {
                Ok(out) => r == Ok::<u64, VaultError>(out as u64),
                Err(e) => r == Err::<u64, VaultError>(e),
            },
    {
        let amount_in_i128 = amount_in as i128;
        let from_price_i128 = from_price as i128;
        let to_price_i128 = to_price as i128;
        assert(i128::MIN <= amount_in_i128 * from_price_i128 <= i128::MAX) by (nonlinear_arith)
            requires
                0 <= amount_in_i128 <= u64::MAX,
                i64::MIN <= from_price_i128 <= i64::MAX,
        ;
        let value_from = amount_in_i128 * from_price_i128;
        let expo_diff: i64 = from_expo as i64 - to_expo as i64;
        let value_adjusted = match scale_i128(value_from, expo_diff) {
            Some(v) => v,
            None => return Err(VaultError::MathOverflow),
        };
        proof {
            lemma_checked_div_i128(value_adjusted, to_price_i128);
        }
        let amount_out_base = match value_adjusted.checked_div(to_price_i128) {
            Some(v) => v,
            None => return Err(VaultError::MathOverflow),
        };
        let decimals_diff: i64 = to_decimals as i64 - from_decimals as i64;
        let amount_out = match scale_i128(amount_out_base, decimals_diff) {
            Some(v) => v,
            None => return Err(VaultError::MathOverflow),
        };
        if amount_out <= 0 {
            return Err(VaultError::InvalidAmount);
        }
        if amount_out > u64::MAX as i128 {
            return Err(VaultError::MathOverflow);
        }
        Ok(amount_out as u64)
    }
}

} // verus!
