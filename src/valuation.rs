//! Valuation: USD value of holdings, total value locked, share price, and the
//! number of shares a deposit is worth.

use vstd::prelude::*;
use crate::error::VaultError;
use crate::math::{pow10, pow10_i64, pow10_u64, lemma_pow10_positive};
use crate::price::{NormalizedPrice, tokens_to_usd_defined, tokens_to_usd_value};
use crate::vault::Vault;

verus! {

/// Share price, in micro-dollars, of a vault without shares.
pub const INITIAL_SHARE_PRICE: i64 = 1_000_000;

/// Shares have nine decimals.
pub const SHARE_SCALE: i64 = 1_000_000_000;

/// Micro-dollar value of the first `n` holdings.
pub open spec fn holdings_usd(
    balances: Seq<u64>,
    prices: Seq<NormalizedPrice>,
    decimals: Seq<u8>,
    n: nat,
) -> int
    decreases n,
{
    if n == 0 {
        0
    } else {
        holdings_usd(balances, prices, decimals, (n - 1) as nat) + tokens_to_usd_value(
            prices[n - 1].price_usd as int,
            balances[n - 1] as int,
            decimals[n - 1] as nat,
        )
    }
}

/// Every holding's value can be computed with checked `i64` arithmetic.
pub open spec fn holdings_defined(
    balances: Seq<u64>,
    prices: Seq<NormalizedPrice>,
    decimals: Seq<u8>,
) -> bool {
    forall|i: int|
        0 <= i < balances.len() ==> tokens_to_usd_defined(
            #[trigger] prices[i].price_usd as int,
            balances[i] as int,
            decimals[i] as nat,
        )
}

/// Every price is tradable.
pub open spec fn all_tradable(prices: Seq<NormalizedPrice>) -> bool {
    forall|i: int| 0 <= i < prices.len() ==> #[trigger] prices[i].is_tradable()
}

/// The value of a holding at a tradable price is never negative.
pub proof fn lemma_holding_nonneg(price: int, amount: int, decimals: nat)
    requires
        price > 0,
        amount >= 0,
    ensures
        tokens_to_usd_value(price, amount, decimals) >= 0,
{
    lemma_pow10_positive(decimals);
    let p = amount * price;
    assert(p >= 0) by (nonlinear_arith)
        requires
            price > 0,
            amount >= 0,
            p == amount * price,
    ;
    let d = pow10(decimals);
    assert(p / d >= 0) by (nonlinear_arith)
        requires
            p >= 0,
            d >= 1,
    ;
}

/// At tradable prices the value of a prefix of the holdings never exceeds
/// that of a longer prefix.
pub proof fn lemma_holdings_monotone(
    balances: Seq<u64>,
    prices: Seq<NormalizedPrice>,
    decimals: Seq<u8>,
    k: nat,
    n: nat,
)
    requires
        k <= n <= balances.len(),
        prices.len() == balances.len(),
        decimals.len() == balances.len(),
        all_tradable(prices),
    ensures
        0 <= holdings_usd(balances, prices, decimals, k) <= holdings_usd(balances, prices, decimals, n),
    decreases n,
{
    if n > 0 {
        let i = n - 1;
        assert(prices[i].is_tradable());
        lemma_holding_nonneg(prices[i].price_usd as int, balances[i] as int, decimals[i] as nat);
        if k < n {
            lemma_holdings_monotone(balances, prices, decimals, k, (n - 1) as nat);
        } else {
            lemma_holdings_monotone(balances, prices, decimals, (n - 1) as nat, (n - 1) as nat);
        }
    }
}

/// Total value locked, in micro-dollars: the value of every holding at its
/// price plus the value held by the delegated strategy. Fails with
/// `MathOverflow` where a holding's value or the sum leaves `i64`.
pub fn compute_tvl(
    balances: &Vec<u64>,
    prices: &Vec<NormalizedPrice>,
    decimals: &Vec<u8>,
    strategy_value: u64,
) -> (r: Result<i64, VaultError>)
    requires
        prices@.len() == balances@.len(),
        decimals@.len() == balances@.len(),
        all_tradable(prices@),
    ensures
        match tvl_spec(balances@, prices@, decimals@, strategy_value as int) {
            Some(v) => r matches Ok(x) && x == v,
            None => r == Err::<i64, VaultError>(VaultError::MathOverflow),
        },
        r matches Ok(v) ==> v >= 0,
{
    let mut total: i64 = 0;
    let mut i: usize = 0;
    while i < balances.len()
        invariant
            i <= balances@.len(),
            prices@.len() == balances@.len(),
            decimals@.len() == balances@.len(),
            all_tradable(prices@),
            total == holdings_usd(balances@, prices@, decimals@, i as nat),
            forall|j: int|
                0 <= j < i ==> tokens_to_usd_defined(
                    #[trigger] prices@[j].price_usd as int,
                    balances@[j] as int,
                    decimals@[j] as nat,
                ),
        decreases balances@.len() - i,
    {
        let value = match prices[i].tokens_to_usd(balances[i], decimals[i]) {
            Ok(v) => v,
            Err(e) => return Err(e),
        };
        proof {
            lemma_holdings_monotone(balances@, prices@, decimals@, (i + 1) as nat, balances@.len());
            assert(prices@[i as int].is_tradable());
            lemma_holding_nonneg(
                prices@[i as int].price_usd as int,
                balances@[i as int] as int,
                decimals@[i as int] as nat,
            );
        }
        total = match total.checked_add(value) {
            Some(t) => t,
            None => return Err(VaultError::MathOverflow),
        };
        i = i + 1;
    }
    proof {
        lemma_holdings_monotone(balances@, prices@, decimals@, 0, balances@.len());
    }
    if strategy_value > i64::MAX as u64 {
        return Err(VaultError::MathOverflow);
    }
    match total.checked_add(strategy_value as i64) {
        Some(t) => Ok(t),
        None => Err(VaultError::MathOverflow),
    }
}

/// Share price in micro-dollars for a vault worth `tvl` micro-dollars with
/// `total_shares` outstanding (nine-decimal) shares: `tvl × 10^9 / shares / 10^3`.
pub open spec fn share_price_value(tvl: int, total_shares: int) -> int {
    (tvl * 1_000_000_000) / total_shares / 1_000
}

/// Shares, in nine-decimal units, that `deposit` micro-dollars buy at
/// `share_price` micro-dollars per share: `deposit × 10^9 / price / 10^3`.
pub open spec fn shares_for_deposit(deposit: int, share_price: int) -> int {
    (deposit * 1_000_000_000) / share_price / 1_000
}

/// `calculate_share_price` as a function of its inputs.
pub open spec fn share_price_spec(tvl: int, total_shares: int) -> Result<int, VaultError> {
    if total_shares == 0 {
        Ok(INITIAL_SHARE_PRICE as int)
    } else if tvl <= 0 {
        Err(VaultError::InsufficientAssets)
    } else if total_shares > i64::MAX || tvl * 1_000_000_000 > i64::MAX {
        Err(VaultError::MathOverflow)
    } else {
        Ok(share_price_value(tvl, total_shares))
    }
}

/// `calculate_shares_to_mint` as a function of its inputs.
pub open spec fn shares_to_mint_spec(deposit: int, share_price: int) -> Result<int, VaultError> {
    if share_price <= 0 {
        Err(VaultError::MathOverflow)
    } else if deposit < 0 {
        Err(VaultError::InvalidAmount)
    } else if deposit * 1_000_000_000 > i64::MAX {
        Err(VaultError::MathOverflow)
    } else {
        Ok(shares_for_deposit(deposit, share_price))
    }
}

/// `compute_tvl` as a partial function: `None` where it fails.
pub open spec fn tvl_spec(
    balances: Seq<u64>,
    prices: Seq<NormalizedPrice>,
    decimals: Seq<u8>,
    strategy_value: int,
) -> Option<int> {
    let total = holdings_usd(balances, prices, decimals, balances.len()) + strategy_value;
    if holdings_defined(balances, prices, decimals) && total <= i64::MAX {
        Some(total)
    } else {
        None
    }
}

/// Native units of a token with `decimals` decimals converted to a
/// six-decimal amount, or `None` where checked `u64` arithmetic fails.
pub open spec fn units_to_micro(amount: int, decimals: int) -> Option<int> {
    if decimals >= 6 {
        if decimals - 6 <= 19 {
            Some(amount / pow10((decimals - 6) as nat))
        } else {
            None
        }
    } else if amount * pow10((6 - decimals) as nat) <= u64::MAX {
        Some(amount * pow10((6 - decimals) as nat))
    } else {
        None
    }
}

/// A non-negative six-decimal amount converted to native units of a token
/// with `decimals` decimals, or `None` where checked `i64` arithmetic fails.
pub open spec fn micro_to_units(usd: int, decimals: int) -> Option<int> {
    if decimals >= 6 {
        if decimals - 6 <= 18 && usd * pow10((decimals - 6) as nat) <= i64::MAX {
            Some(usd * pow10((decimals - 6) as nat))
        } else {
            None
        }
    } else {
        Some(usd / pow10((6 - decimals) as nat))
    }
}

/// Moving a non-negative token amount to six decimals and back loses less
/// than one six-decimal unit's worth of native units, and nothing when the
/// token has six decimals or fewer.
pub proof fn lemma_units_micro_round_trip(amount: int, decimals: int)
    requires
        amount >= 0,
        decimals >= 0,
    ensures
        match units_to_micro(amount, decimals) {
            Some(m) => match micro_to_units(m, decimals) {
                Some(back) => {
                    &&& decimals <= 6 ==> back == amount
                    &&& decimals > 6 ==> 0 <= amount - back < pow10((decimals - 6) as nat)
                },
                None => true,
            },
            None => true,
        },
{
    if decimals >= 6 {
        let p = pow10((decimals - 6) as nat);
        lemma_pow10_positive((decimals - 6) as nat);
        let m = amount / p;
        assert(0 <= amount - m * p < p) by (nonlinear_arith)
            requires
                amount >= 0,
                p >= 1,
                m == amount / p,
        ;
        if decimals == 6 {
            assert(p == 1);
            assert(m == amount);
        }
    } else {
        let p = pow10((6 - decimals) as nat);
        lemma_pow10_positive((6 - decimals) as nat);
        assert((amount * p) / p == amount) by (nonlinear_arith)
            requires
                p >= 1,
        ;
    }
}

impl Vault {
    /// Moves a native token amount to six decimals: divides by
    /// `10^(decimals - 6)` (rounding down) or multiplies by `10^(6 - decimals)`.
    /// Fails with `MathOverflow` where checked `u64` arithmetic fails.
    pub fn token_amount_to_usd_micro(amount: u64, token_decimals: u8) -> (r: Result<u64, VaultError>)
        ensures
            match units_to_micro(amount as int, token_decimals as int) {
                Some(v) => r == Ok::<u64, VaultError>(v as u64),
                None => r == Err::<u64, VaultError>(VaultError::MathOverflow),
            },
    {
        if token_decimals >= 6 {
            let p = match pow10_u64((token_decimals - 6) as u32) {
                Some(p) => p,
                None => return Err(VaultError::MathOverflow),
            };
            proof {
                lemma_pow10_positive((token_decimals - 6) as nat);
            }
            Ok(amount / p)
        } else {
            let p = match pow10_u64((6 - token_decimals) as u32) {
                Some(p) => p,
                None => return Err(VaultError::MathOverflow),
            };
            match amount.checked_mul(p) {
                Some(v) => Ok(v),
                None => Err(VaultError::MathOverflow),
            }
        }
    }

    /// Moves a six-decimal amount to a token's native decimals. Fails with
    /// `InvalidAmount` on a negative amount and with `MathOverflow` where
    /// checked `i64` arithmetic fails.
    pub fn usd_micro_to_token_amount(usd_micro: i64, token_decimals: u8) -> (r: Result<u64, VaultError>)
        ensures
            usd_micro < 0 ==> r == Err::<u64, VaultError>(VaultError::InvalidAmount),
            usd_micro >= 0 ==> match micro_to_units(usd_micro as int, token_decimals as int) {
                Some(v) => r == Ok::<u64, VaultError>(v as u64),
                None => r == Err::<u64, VaultError>(VaultError::MathOverflow),
            },
    {
        if usd_micro < 0 {
            return Err(VaultError::InvalidAmount);
        }
        if token_decimals >= 6 {
            let p = match pow10_i64((token_decimals - 6) as u32) {
                Some(p) => p,
                None => return Err(VaultError::MathOverflow),
            };
            proof {
                lemma_pow10_positive((token_decimals - 6) as nat);
            }
            match usd_micro.checked_mul(p) {
                Some(v) => Ok(v as u64),
                None => Err(VaultError::MathOverflow),
            }
        } else {
            let p = match pow10_i64((6 - token_decimals) as u32) {
                Some(p) => p,
                None => return Err(VaultError::MathOverflow),
            };
            proof {
                lemma_pow10_positive((6 - token_decimals) as nat);
                assert(usd_micro / p <= usd_micro) by (nonlinear_arith)
                    requires
                        usd_micro >= 0,
                        p >= 1,
                ;
            }
            Ok((usd_micro / p) as u64)
        }
    }

    /// Native amount of a token worth `usd_allocation` micro-dollars at
    /// `normalized_price`. Fails as `usd_to_tokens` does, and with
    /// `InvalidAmount` where the amount is negative.
    pub fn calculate_token_amount_from_usd(
        usd_allocation: i64,
        normalized_price: &NormalizedPrice,
        token_decimals: u8,
    ) -> (r: Result<u64, VaultError>)
        ensures
            match crate::price::usd_to_tokens_spec(
                normalized_price.price_usd as int,
                usd_allocation as int,
                token_decimals as nat,
            ) {
                Some(v) => if v < 0 {
                    r == Err::<u64, VaultError>(VaultError::InvalidAmount)
                } else {
                    r == Ok::<u64, VaultError>(v as u64)
                },
                None => r == Err::<u64, VaultError>(VaultError::MathOverflow),
            },
    {
        let amount = match normalized_price.usd_to_tokens(usd_allocation, token_decimals) {
            Ok(a) => a,
            Err(e) => return Err(e),
        };
        if amount < 0 {
            return Err(VaultError::InvalidAmount);
        }
        Ok(amount as u64)
    }

    /// Total value of a three-asset basket (8, 18 and 9 decimals) in micro-dollars.
    pub fn calculate_tvl_from_balances(
        btc_balance: u64,
        eth_balance: u64,
        sol_balance: u64,
        btc_price: &NormalizedPrice,
        eth_price: &NormalizedPrice,
        sol_price: &NormalizedPrice,
    ) -> (r: Result<i64, VaultError>)
        requires
            btc_price.is_tradable(),
            eth_price.is_tradable(),
            sol_price.is_tradable(),
        ensures
            ({
                let balances = seq![btc_balance, eth_balance, sol_balance];
                let prices = seq![*btc_price, *eth_price, *sol_price];
                let decimals = seq![8u8, 18u8, 9u8];
                let total = holdings_usd(balances, prices, decimals, 3);
                if holdings_defined(balances, prices, decimals) && total <= i64::MAX {
                    r == Ok::<i64, VaultError>(total as i64)
                } else {
                    r == Err::<i64, VaultError>(VaultError::MathOverflow)
                }
            }),
    {
        let balances = vec![btc_balance, eth_balance, sol_balance];
        let prices = vec![*btc_price, *eth_price, *sol_price];
        let decimals = vec![8u8, 18u8, 9u8];
        proof {
            assert(balances@ =~= seq![btc_balance, eth_balance, sol_balance]);
            assert(prices@ =~= seq![*btc_price, *eth_price, *sol_price]);
            assert(decimals@ =~= seq![8u8, 18u8, 9u8]);
        }
        compute_tvl(&balances, &prices, &decimals, 0)
    }

    /// Share price in micro-dollars: exactly $1.00 while no shares exist,
    /// otherwise `tvl × 10^9 / total_shares / 10^3` (rounded down). A vault
    /// whose value is not positive while shares exist fails with
    /// `InsufficientAssets`; checked steps fail with `MathOverflow`.
    pub fn calculate_share_price(tvl_usd_micro: i64, total_shares: u64) -> (r: Result<i64, VaultError>)
        ensures
            total_shares == 0 ==> r == Ok::<i64, VaultError>(INITIAL_SHARE_PRICE),
            match share_price_spec(tvl_usd_micro as int, total_shares as int) {
                Ok(v) => r matches Ok(x) && x == v,
                Err(e) => r == Err::<i64, VaultError>(e),
            },
            r matches Ok(v) ==> v >= 0,
    {
        if total_shares == 0 {
            return Ok(INITIAL_SHARE_PRICE);
        }
        if tvl_usd_micro <= 0 {
            return Err(VaultError::InsufficientAssets);
        }
        if total_shares > i64::MAX as u64 {
            return Err(VaultError::MathOverflow);
        }
        let scaled = match tvl_usd_micro.checked_mul(SHARE_SCALE) {
            Some(v) => v,
            None => return Err(VaultError::MathOverflow),
        };
        let shares = total_shares as i64;
        assert((scaled as int) / (shares as int) <= scaled) by (nonlinear_arith)
            requires
                scaled > 0,
                shares >= 1,
        ;
        let per_share = scaled / shares;
        assert(per_share / 1_000 >= 0);
        Ok(per_share / 1_000)
    }

    /// Shares (nine decimals) that a deposit worth `deposit_usd_micro` buys at
    /// `share_price_usd_micro`: `deposit × 10^9 / price / 10^3`, rounded down.
    /// Fails with `MathOverflow` on a price that is not positive or where the
    /// scaling overflows, and with `InvalidAmount` on a negative deposit.
    pub fn calculate_shares_to_mint(deposit_usd_micro: i64, share_price_usd_micro: i64) -> (r: Result<
        u64,
        VaultError,
    >)
        ensures
            match shares_to_mint_spec(deposit_usd_micro as int, share_price_usd_micro as int) {
                Ok(v) => r matches Ok(x) && x == v,
                Err(e) => r == Err::<u64, VaultError>(e),
            },
            r matches Ok(v) ==> v <= i64::MAX,
    {
        if share_price_usd_micro <= 0 {
            return Err(VaultError::MathOverflow);
        }
        if deposit_usd_micro < 0 {
            return Err(VaultError::InvalidAmount);
        }
        let scaled = match deposit_usd_micro.checked_mul(SHARE_SCALE) {
            Some(v) => v,
            None => return Err(VaultError::MathOverflow),
        };
        assert(0 <= (scaled as int) / (share_price_usd_micro as int) <= scaled) by (nonlinear_arith)
            requires
                scaled >= 0,
                share_price_usd_micro >= 1,
        ;
        let per_price = scaled / share_price_usd_micro;
        assert(per_price / 1_000 <= per_price);
        Ok((per_price / 1_000) as u64)
    }
}

} // verus!
