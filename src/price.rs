//! Normalised prices: an oracle quote `price × 10^expo` brought to micro-dollars
//! (six decimals), and the conversions between token amounts and USD value.

use vstd::prelude::*;
use vstd::arithmetic::div_mod::{lemma_fundamental_div_mod, lemma_mod_pos_bound};
use crate::error::VaultError;
use crate::math::{
    pow10, pow10_i64, trunc_div, lemma_pow10_positive, lemma_checked_div_i64, lemma_trunc_div_shrinks,
};

verus! {

/// Decimal places of the canonical USD unit (micro-dollars).
pub const USD_DECIMALS: i32 = 6;

/// Whether `x` is a value of `i64`.
pub open spec fn in_i64(x: int) -> bool {
    i64::MIN <= x <= i64::MAX
}

/// Whether a quote `price × 10^expo` can be brought to micro-dollars with
/// checked `i64` arithmetic: the power of ten that scales it fits in `i64`, and
/// so does the product when it is scaled up.
pub open spec fn quote_scales(price: int, expo: int) -> bool {
    if expo < -6 {
        -6 - expo <= 18
    } else {
        6 + expo <= 18 && in_i64(price * pow10((6 + expo) as nat))
    }
}

/// The quote `price × 10^expo` in micro-dollars: divided down (toward zero)
/// when the quote has more than six decimals, multiplied up when it has fewer.
pub open spec fn scaled_price(price: int, expo: int) -> int {
    if expo < -6 {
        trunc_div(price, pow10((-6 - expo) as nat))
    } else {
        price * pow10((6 + expo) as nat)
    }
}

/// Whether `usd × 10^decimals / price` can be computed with checked `i64` arithmetic.
pub open spec fn usd_to_tokens_defined(price: int, usd: int, decimals: nat) -> bool {
    decimals <= 18 && in_i64(usd * pow10(decimals)) && price != 0 && in_i64(
        trunc_div(usd * pow10(decimals), price),
    )
}

/// `usd_to_tokens` as a partial function: `None` where it fails.
pub open spec fn usd_to_tokens_spec(price: int, usd: int, decimals: nat) -> Option<int> {
    if usd_to_tokens_defined(price, usd, decimals) {
        Some(usd_to_tokens_value(price, usd, decimals))
    } else {
        None
    }
}

/// Native token amount worth `usd` micro-dollars at `price` micro-dollars per whole token.
pub open spec fn usd_to_tokens_value(price: int, usd: int, decimals: nat) -> int {
    trunc_div(usd * pow10(decimals), price)
}

/// Whether `amount × price / 10^decimals` can be computed with checked `i64` arithmetic.
pub open spec fn tokens_to_usd_defined(price: int, amount: int, decimals: nat) -> bool {
    amount <= i64::MAX && decimals <= 18 && in_i64(amount * price)
}

/// Micro-dollar value of `amount` native units at `price` micro-dollars per whole token.
pub open spec fn tokens_to_usd_value(price: int, amount: int, decimals: nat) -> int {
    trunc_div(amount * price, pow10(decimals))
}

/// Converting a non-negative USD amount to tokens and back loses less than
/// the value of one native token unit plus one micro-dollar, and never gains:
/// the round trip always succeeds where the first conversion does, and
/// `0 <= usd - back` with `(usd - back) × 10^decimals < price + 10^decimals`.
pub proof fn lemma_usd_token_round_trip(price: int, usd: int, decimals: nat)
    requires
        price > 0,
        usd >= 0,
        usd_to_tokens_defined(price, usd, decimals),
    ensures
        ({
            let tokens = usd_to_tokens_value(price, usd, decimals);
            let back = tokens_to_usd_value(price, tokens, decimals);
            &&& 0 <= tokens
            &&& tokens_to_usd_defined(price, tokens, decimals)
            &&& 0 <= back <= usd
            &&& (usd - back) * pow10(decimals) < price + pow10(decimals)
        }),
{
    let p10 = pow10(decimals);
    lemma_pow10_positive(decimals);
    let scaled = usd * p10;
    assert(scaled >= 0) by (nonlinear_arith)
        requires
            usd >= 0,
            p10 >= 1,
            scaled == usd * p10,
    ;
    let tokens = usd_to_tokens_value(price, usd, decimals);
    assert(tokens == scaled / price);
    let q = scaled / price;
    let m = scaled % price;
    lemma_fundamental_div_mod(scaled, price);
    lemma_mod_pos_bound(scaled, price);
    assert(scaled == price * q + m && 0 <= m < price);
    assert(0 <= q) by (nonlinear_arith)
        requires
            scaled >= 0,
            price > 0,
            q == scaled / price,
    ;
    let prod = q * price;
    assert(0 <= prod <= scaled) by (nonlinear_arith)
        requires
            scaled == price * q + m,
            0 <= m,
            0 <= q,
            price > 0,
            prod == q * price,
    ;
    let back = prod / p10;
    assert(back == tokens_to_usd_value(price, tokens, decimals));
    let m2 = prod % p10;
    lemma_fundamental_div_mod(prod, p10);
    lemma_mod_pos_bound(prod, p10);
    assert(prod == p10 * back + m2 && 0 <= m2 < p10);
    assert(0 <= back <= usd && (usd - back) * p10 < price + p10) by (nonlinear_arith)
        requires
            prod == p10 * back + m2,
            0 <= m2 < p10,
            0 <= prod <= scaled,
            scaled == usd * p10,
            scaled == prod + m,
            0 <= m < price,
            p10 >= 1,
    ;
}

/// `tokens_to_usd` as a partial function: `None` where it fails.
pub open spec fn tokens_to_usd_spec(price: int, amount: int, decimals: nat) -> Option<int> {
    if tokens_to_usd_defined(price, amount, decimals) {
        Some(tokens_to_usd_value(price, amount, decimals))
    } else {
        None
    }
}

/// A price in micro-dollars per whole token, with the quote it came from.
#[derive(Clone, Copy, Debug)]
pub struct NormalizedPrice {
    /// USD per whole token, scaled by 10^6.
    pub price_usd: i64,
    /// The mantissa of the quote.
    pub original_price: i64,
    /// The decimal exponent of the quote.
    pub expo: i32,
}

impl NormalizedPrice {
    /// A tradable price is strictly positive.
    pub open spec fn is_tradable(&self) -> bool {
        self.price_usd > 0
    }

    /// Brings the quote `price × 10^expo` to micro-dollars.
    ///
    /// Fails with `MathOverflow` where the scaling overflows `i64`, and with
    /// `InvalidPrice` where the scaled price is not strictly positive.
    pub fn from_switchboard_quote(price: i64, expo: i32) -> (r: Result<NormalizedPrice, VaultError>)
        ensures
            !quote_scales(price as int, expo as int) ==> r == Err::<NormalizedPrice, VaultError>(
                VaultError::MathOverflow,
            ),
            quote_scales(price as int, expo as int) && scaled_price(price as int, expo as int) <= 0
                ==> r == Err::<NormalizedPrice, VaultError>(VaultError::InvalidPrice),
            quote_scales(price as int, expo as int) && scaled_price(price as int, expo as int) > 0
                ==> r is Ok,
            r matches Ok(p) ==> p.price_usd == scaled_price(price as int, expo as int)
                && p.original_price == price && p.expo == expo && p.is_tradable(),
    {
        let price_usd: i64;
        if expo < -6 {
            let shift: i64 = -6 - expo as i64;
            if shift > 18 {
                return Err(VaultError::MathOverflow);
            }
            let divisor = match pow10_i64(shift as u32) {
                Some(v) => v,
                None => return Err(VaultError::MathOverflow),
            };
            proof {
                lemma_pow10_positive(shift as nat);
                lemma_trunc_div_shrinks(price as int, divisor as int);
                lemma_checked_div_i64(price, divisor);
            }
            price_usd = match price.checked_div(divisor) {
                Some(v) => v,
                None => return Err(VaultError::MathOverflow),
            };
        } else {
            let shift: i64 = 6 + expo as i64;
            if shift > 18 {
                return Err(VaultError::MathOverflow);
            }
            let factor = match pow10_i64(shift as u32) {
                Some(v) => v,
                None => return Err(VaultError::MathOverflow),
            };
            price_usd = match price.checked_mul(factor) {
                Some(v) => v,
                None => return Err(VaultError::MathOverflow),
            };
        }
        if price_usd <= 0 {
            return Err(VaultError::InvalidPrice);
        }
        Ok(NormalizedPrice { price_usd, original_price: price, expo })
    }

    /// A price already given in micro-dollars (a quote with exponent -6).
    pub fn from_micro_usd(price_usd: i64) -> (r: Result<NormalizedPrice, VaultError>)
        ensures
            price_usd <= 0 ==> r == Err::<NormalizedPrice, VaultError>(VaultError::InvalidPrice),
            price_usd > 0 ==> r == Ok::<NormalizedPrice, VaultError>(
                NormalizedPrice { price_usd, original_price: price_usd, expo: -6i32 },
            ),
    {
        proof {
            reveal_with_fuel(pow10, 1);
        }
        NormalizedPrice::from_switchboard_quote(price_usd, -6)
    }

    /// Native amount of a token with `token_decimals` decimals that is worth
    /// `usd_micro` micro-dollars: `usd_micro × 10^decimals / price`, rounded
    /// toward zero. Fails with `MathOverflow` where a checked step fails.
    pub fn usd_to_tokens(&self, usd_micro: i64, token_decimals: u8) -> (r: Result<i64, VaultError>)
        ensures
            usd_to_tokens_defined(self.price_usd as int, usd_micro as int, token_decimals as nat)
                ==> r is Ok,
            r matches Ok(v) ==> v == usd_to_tokens_value(
                self.price_usd as int,
                usd_micro as int,
                token_decimals as nat,
            ),
            !usd_to_tokens_defined(self.price_usd as int, usd_micro as int, token_decimals as nat)
                ==> r == Err::<i64, VaultError>(VaultError::MathOverflow),
    {
        let scale = match pow10_i64(token_decimals as u32) {
            Some(v) => v,
            None => return Err(VaultError::MathOverflow),
        };
        let scaled = match usd_micro.checked_mul(scale) {
            Some(v) => v,
            None => return Err(VaultError::MathOverflow),
        };
        proof {
            lemma_checked_div_i64(scaled, self.price_usd);
        }
        match scaled.checked_div(self.price_usd) {
            Some(v) => Ok(v),
            None => Err(VaultError::MathOverflow),
        }
    }

    /// Micro-dollar value of `amount` native units of a token with
    /// `token_decimals` decimals: `amount × price / 10^decimals`, rounded toward
    /// zero. Fails with `MathOverflow` where a checked step fails.
    pub fn tokens_to_usd(&self, amount: u64, token_decimals: u8) -> (r: Result<i64, VaultError>)
        ensures
            tokens_to_usd_defined(self.price_usd as int, amount as int, token_decimals as nat)
                ==> r is Ok,
            r matches Ok(v) ==> v == tokens_to_usd_value(
                self.price_usd as int,
                amount as int,
                token_decimals as nat,
            ),
            !tokens_to_usd_defined(self.price_usd as int, amount as int, token_decimals as nat)
                ==> r == Err::<i64, VaultError>(VaultError::MathOverflow),
    {
        if amount > i64::MAX as u64 {
            return Err(VaultError::MathOverflow);
        }
        let amount_i64 = amount as i64;
        let product = match amount_i64.checked_mul(self.price_usd) {
            Some(v) => v,
            None => return Err(VaultError::MathOverflow),
        };
        let scale = match pow10_i64(token_decimals as u32) {
            Some(v) => v,
            None => return Err(VaultError::MathOverflow),
        };
        proof {
            lemma_pow10_positive(token_decimals as nat);
            lemma_trunc_div_shrinks(product as int, scale as int);
            lemma_checked_div_i64(product, scale);
        }
        match product.checked_div(scale) {
            Some(v) => Ok(v),
            None => Err(VaultError::MathOverflow),
        }
    }
}

} // verus!
