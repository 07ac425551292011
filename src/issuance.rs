//! Issuance and redemption: the shares a deposit mints and how the deposit is
//! spread over the basket; the share of every holding that a redemption releases.

use vstd::prelude::*;
use crate::error::VaultError;
use crate::price::{NormalizedPrice, tokens_to_usd_spec, usd_to_tokens_spec};
use crate::swap::{MockSwap, swap_output};
use crate::valuation::{
    all_tradable, compute_tvl, share_price_spec, shares_to_mint_spec, tvl_spec, lemma_holding_nonneg,
    shares_for_deposit, INITIAL_SHARE_PRICE,
};
use crate::math::{pow10, lemma_pow10_positive, lemma_trunc_div_shrinks};
use crate::vault::{AssetConfig, AssetRole, Vault, basket_parameters, decimals_of, weight_sum, lemma_weight_le_sum};

verus! {

/// How one asset takes its part of a deposit.
#[derive(Clone, Copy, Debug, PartialEq, Eq, Structural)]
pub struct DepositAllocation {
    /// Index of the asset in the basket.
    pub asset: usize,
    /// Part of the deposit, in the deposit token's native units.
    pub deposit_amount: u64,
    /// Part of the deposit's value, in micro-dollars.
    pub usd_allocation: i64,
    /// Native units of the asset that the part buys, or the part itself
    /// where it is delegated to the strategy.
    pub asset_amount: u64,
    /// Whether the part goes to the yield strategy.
    pub delegated: bool,
}

/// Everything a deposit decides.
#[derive(Clone, Debug)]
pub struct DepositPlan {
    /// Value of the deposit, in micro-dollars.
    pub deposit_usd_micro: i64,
    /// Value of the vault before the deposit.
    pub tvl_before: i64,
    /// Share price the deposit buys at.
    pub share_price: i64,
    pub shares_to_mint: u64,
    /// One entry per asset of the basket, in order.
    pub allocations: Vec<DepositAllocation>,
    /// Native units of the deposit token delegated to the strategy.
    pub stake_amount: u64,
    pub new_tvl: i64,
    pub new_total_shares: u64,
    pub new_share_price: i64,
}

/// The scalar results of a deposit of `amount`: its value, the vault's value
/// and share price before it, the shares it mints, and the vault's value,
/// shares and share price after it.
pub open spec fn deposit_scalars(
    amount: int,
    deposit_price: NormalizedPrice,
    deposit_decimals: u8,
    balances: Seq<u64>,
    prices: Seq<NormalizedPrice>,
    decimals: Seq<u8>,
    strategy_value: int,
    total_shares: int,
) -> Result<(int, int, int, int, int, int, int), VaultError> {
    if amount == 0 {
        Err(VaultError::InvalidAmount)
    } else {
        match tokens_to_usd_spec(deposit_price.price_usd as int, amount, deposit_decimals as nat) {
            None => Err(VaultError::MathOverflow),
            Some(usd) => match tvl_spec(balances, prices, decimals, strategy_value) {
                None => Err(VaultError::MathOverflow),
                Some(tvl) => match share_price_spec(tvl, total_shares) {
                    Err(e) => Err(e),
                    Ok(price) => match shares_to_mint_spec(usd, price) {
                        Err(e) => Err(e),
                        Ok(shares) => {
                            if tvl + usd > i64::MAX || total_shares + shares > u64::MAX {
                                Err(VaultError::MathOverflow)
                            } else {
                                match share_price_spec(tvl + usd, total_shares + shares) {
                                    Err(e) => Err(e),
                                    Ok(new_price) => Ok(
                                        (
                                            usd,
                                            tvl,
                                            price,
                                            shares,
                                            tvl + usd,
                                            total_shares + shares,
                                            new_price,
                                        ),
                                    ),
                                }
                            }
                        },
                    },
                },
            },
        }
    }
}

/// How asset `i` takes its weight's part of a deposit of `amount` worth
/// `deposit_usd`: a delegated asset passes its part on to the strategy where
/// the vault has one, and otherwise keeps it in the vault as deposited; a held
/// asset buys its part's worth at current prices.
pub open spec fn allocation_spec(
    amount: int,
    deposit_usd: int,
    deposit_price: NormalizedPrice,
    deposit_decimals: u8,
    has_strategy: bool,
    i: int,
    asset: AssetConfig,
    price: NormalizedPrice,
) -> Result<DepositAllocation, VaultError> {
    let part = amount * asset.weight / 100;
    let usd_part = deposit_usd * asset.weight / 100;
    match asset.role {
        AssetRole::Delegated => Ok(
            DepositAllocation {
                asset: i as usize,
                deposit_amount: part as u64,
                usd_allocation: usd_part as i64,
                asset_amount: part as u64,
                delegated: has_strategy,
            },
        ),
        AssetRole::Held => match swap_output(
            part,
            deposit_price.price_usd as int,
            -6,
            price.price_usd as int,
            -6,
            deposit_decimals as int,
            asset.decimals as int,
        ) {
            Ok(out) => Ok(
                DepositAllocation {
                    asset: i as usize,
                    deposit_amount: part as u64,
                    usd_allocation: usd_part as i64,
                    asset_amount: out as u64,
                    delegated: false,
                },
            ),
            Err(e) => Err(e),
        },
    }
}

/// Part of `amount` that the first `n` assets delegate to the strategy; none
/// without a strategy.
pub open spec fn delegated_total(amount: int, assets: Seq<AssetConfig>, has_strategy: bool, n: nat) -> int
    decreases n,
{
    if n == 0 || !has_strategy {
        0
    } else {
        delegated_total(amount, assets, has_strategy, (n - 1) as nat) + match assets[n - 1].role {
            AssetRole::Delegated => amount * assets[n - 1].weight / 100,
            AssetRole::Held => 0,
        }
    }
}

/// Computes a deposit of `amount` native units of the deposit token: its
/// value at `deposit_price`, the vault's value (holdings plus
/// `strategy_value`) and share price, the shares it mints, how each asset
/// takes its weight's part, and the vault's state after it. Fails with the
/// error of the first step that fails: the scalar steps first, then the
/// allocations in basket order.
pub fn deposit_multi_asset(
    vault: &Vault,
    amount: u64,
    deposit_price: &NormalizedPrice,
    deposit_decimals: u8,
    balances: &Vec<u64>,
    prices: &Vec<NormalizedPrice>,
    strategy_value: u64,
    total_shares: u64,
) -> (r: Result<DepositPlan, VaultError>)
    requires
        vault.wf(),
        balances@.len() == vault.assets@.len(),
        prices@.len() == vault.assets@.len(),
        all_tradable(prices@),
        deposit_price.is_tradable(),
    ensures
        amount == 0 ==> r == Err::<DepositPlan, VaultError>(VaultError::InvalidAmount),
        match deposit_scalars(
            amount as int,
            *deposit_price,
            deposit_decimals,
            balances@,
            prices@,
            decimals_of(vault.assets@),
            strategy_value as int,
            total_shares as int,
        ) {
            Err(e) => r == Err::<DepositPlan, VaultError>(e),
            Ok(t) => {
                &&& (forall|i: int|
                    0 <= i < vault.assets@.len() ==> (#[trigger] allocation_spec(
                        amount as int,
                        t.0,
                        *deposit_price,
                        deposit_decimals,
                        vault.marinade_strategy is Some,
                        i,
                        vault.assets@[i],
                        prices@[i],
                    )) is Ok) ==> r is Ok
                &&& r matches Err(e) ==> exists|i: int|
                    0 <= i < vault.assets@.len() && #[trigger] allocation_spec(
                        amount as int,
                        t.0,
                        *deposit_price,
                        deposit_decimals,
                        vault.marinade_strategy is Some,
                        i,
                        vault.assets@[i],
                        prices@[i],
                    ) == Err::<DepositAllocation, VaultError>(e) && forall|j: int|
                        0 <= j < i ==> (#[trigger] allocation_spec(
                            amount as int,
                            t.0,
                            *deposit_price,
                            deposit_decimals,
                            vault.marinade_strategy is Some,
                            j,
                            vault.assets@[j],
                            prices@[j],
                        )) is Ok
                &&& r matches Ok(plan) ==> {
                    &&& plan.deposit_usd_micro == t.0
                    &&& plan.tvl_before == t.1
                    &&& plan.share_price == t.2
                    &&& plan.shares_to_mint == t.3
                    &&& plan.new_tvl == t.4
                    &&& plan.new_total_shares == t.5
                    &&& plan.new_share_price == t.6
                    &&& plan.allocations@.len() == vault.assets@.len()
                    &&& forall|i: int|
                        0 <= i < vault.assets@.len() ==> allocation_spec(
                            amount as int,
                            t.0,
                            *deposit_price,
                            deposit_decimals,
                            vault.marinade_strategy is Some,
                            i,
                            vault.assets@[i],
                            prices@[i],
                        ) == Ok::<DepositAllocation, VaultError>(#[trigger] plan.allocations@[i])
                    &&& vault.marinade_strategy is None ==> plan.stake_amount == 0
                    &&& plan.stake_amount == delegated_total(
                        amount as int,
                        vault.assets@,
                        vault.marinade_strategy is Some,
                        vault.assets@.len(),
                    )
                }
            },
        },
{
    if amount == 0 {
        return Err(VaultError::InvalidAmount);
    }
    let deposit_usd = match deposit_price.tokens_to_usd(amount, deposit_decimals) {
        Ok(v) => v,
        Err(e) => return Err(e),
    };
    proof {
        lemma_holding_nonneg(deposit_price.price_usd as int, amount as int, deposit_decimals as nat);
    }
    let (_weights, decimals) = basket_parameters(vault);
    let tvl = match compute_tvl(balances, prices, &decimals, strategy_value) {
        Ok(v) => v,
        Err(e) => return Err(e),
    };
    let share_price = match Vault::calculate_share_price(tvl, total_shares) {
        Ok(v) => v,
        Err(e) => return Err(e),
    };
    let shares_to_mint = match Vault::calculate_shares_to_mint(deposit_usd, share_price) {
        Ok(v) => v,
        Err(e) => return Err(e),
    };
    let new_tvl = match tvl.checked_add(deposit_usd) {
        Some(v) => v,
        None => return Err(VaultError::MathOverflow),
    };
    let new_total_shares = match total_shares.checked_add(shares_to_mint) {
        Some(v) => v,
        None => return Err(VaultError::MathOverflow),
    };
    let new_share_price = match Vault::calculate_share_price(new_tvl, new_total_shares) {
        Ok(v) => v,
        Err(e) => return Err(e),
    };
    let ghost usd = deposit_usd as int;
    let ghost scalars = (
        deposit_usd as int,
        tvl as int,
        share_price as int,
        shares_to_mint as int,
        new_tvl as int,
        new_total_shares as int,
        new_share_price as int,
    );
    assert(deposit_scalars(
        amount as int,
        *deposit_price,
        deposit_decimals,
        balances@,
        prices@,
        decimals_of(vault.assets@),
        strategy_value as int,
        total_shares as int,
    ) == Ok::<(int, int, int, int, int, int, int), VaultError>(scalars));
    let n = vault.assets.len();
    let mut allocations: Vec<DepositAllocation> = Vec::new();
    let has_strategy = vault.marinade_strategy.is_some();
    let mut stake_amount: u64 = 0;
    let mut i: usize = 0;
    while i < n
        invariant
            n == vault.assets@.len(),
            vault.wf(),
            i <= n,
            prices@.len() == n,
            usd == deposit_usd,
            deposit_usd >= 0,
            amount > 0,
            scalars.0 == usd,
            deposit_scalars(
                amount as int,
                *deposit_price,
                deposit_decimals,
                balances@,
                prices@,
                decimals_of(vault.assets@),
                strategy_value as int,
                total_shares as int,
            ) == Ok::<(int, int, int, int, int, int, int), VaultError>(scalars),
            allocations@.len() == i,
            forall|j: int|
                0 <= j < i ==> allocation_spec(
                    amount as int,
                    usd,
                    *deposit_price,
                    deposit_decimals,
                    vault.marinade_strategy is Some,
                    j,
                    vault.assets@[j],
                    prices@[j],
                ) == Ok::<DepositAllocation, VaultError>(#[trigger] allocations@[j]),
            has_strategy == vault.marinade_strategy is Some,
            stake_amount == delegated_total(amount as int, vault.assets@, vault.marinade_strategy is Some, i as nat),
            100 * stake_amount <= amount * weight_sum(vault.assets@.subrange(0, i as int)),
        decreases n - i,
    {
        let asset = vault.assets[i];
        proof {
            lemma_weight_le_sum(vault.assets@, i as int);
            assert(vault.assets@.subrange(0, i + 1).drop_last() =~= vault.assets@.subrange(0, i as int));
            assert((amount as int) * (asset.weight as int) / 100 <= amount) by (nonlinear_arith)
                requires
                    asset.weight <= 100,
            ;
            assert((deposit_usd as int) * (asset.weight as int) / 100 <= deposit_usd) by (nonlinear_arith)
                requires
                    asset.weight <= 100,
                    deposit_usd >= 0,
            ;
            assert(0 <= (deposit_usd as int) * (asset.weight as int) / 100) by (nonlinear_arith)
                requires
                    deposit_usd >= 0,
            ;
        }
        let part = ((amount as u128) * (asset.weight as u128) / 100) as u64;
        let usd_part = ((deposit_usd as i128) * (asset.weight as i128) / 100) as i64;
        let allocation = match asset.role {
            AssetRole::Delegated => {
                proof {
                    assert(100 * (stake_amount + part) <= amount * weight_sum(
                        vault.assets@.subrange(0, i + 1),
                    )) by (nonlinear_arith)
                        requires
                            100 * stake_amount <= amount * weight_sum(vault.assets@.subrange(0, i as int)),
                            weight_sum(vault.assets@.subrange(0, i + 1)) == weight_sum(
                                vault.assets@.subrange(0, i as int),
                            ) + asset.weight,
                            part == (amount as int) * (asset.weight as int) / 100,
                    ;
                    crate::vault::lemma_weight_sum_prefix(vault.assets@, i + 1);
                    assert(amount * weight_sum(vault.assets@.subrange(0, i + 1)) <= amount * 100)
                        by (nonlinear_arith)
                        requires
                            weight_sum(vault.assets@.subrange(0, i + 1)) <= 100,
                    ;
                }
                if has_strategy {
                    stake_amount = stake_amount + part;
                }
                DepositAllocation {
                    asset: i,
                    deposit_amount: part,
                    usd_allocation: usd_part,
                    asset_amount: part,
                    delegated: has_strategy,
                }
            },
            AssetRole::Held => {
                proof {
                    assert(100 * stake_amount <= amount * weight_sum(
                        vault.assets@.subrange(0, i + 1),
                    )) by (nonlinear_arith)
                        requires
                            100 * stake_amount <= amount * weight_sum(vault.assets@.subrange(0, i as int)),
                            weight_sum(vault.assets@.subrange(0, i + 1)) == weight_sum(
                                vault.assets@.subrange(0, i as int),
                            ) + asset.weight,
                    ;
                }
                let out = match MockSwap::calculate_swap_output(
                    part,
                    deposit_price.price_usd,
                    -6,
                    prices[i].price_usd,
                    -6,
                    deposit_decimals,
                    asset.decimals,
                ) {
                    Ok(v) => v,
                    Err(e) => {
                        proof {
                            assert(allocation_spec(
                                amount as int,
                                usd,
                                *deposit_price,
                                deposit_decimals,
                                vault.marinade_strategy is Some,
                                i as int,
                                vault.assets@[i as int],
                                prices@[i as int],
                            ) == Err::<DepositAllocation, VaultError>(e));
                            assert forall|j: int| 0 <= j < i implies (#[trigger] allocation_spec(
                                amount as int,
                                usd,
                                *deposit_price,
                                deposit_decimals,
                                vault.marinade_strategy is Some,
                                j,
                                vault.assets@[j],
                                prices@[j],
                            )) is Ok by {
                                assert(allocation_spec(
                                    amount as int,
                                    usd,
                                    *deposit_price,
                                    deposit_decimals,
                                    vault.marinade_strategy is Some,
                                    j,
                                    vault.assets@[j],
                                    prices@[j],
                                ) == Ok::<DepositAllocation, VaultError>(allocations@[j]));
                            }
                        }
                        return Err(e);
                    },
                };
                DepositAllocation {
                    asset: i,
                    deposit_amount: part,
                    usd_allocation: usd_part,
                    asset_amount: out,
                    delegated: false,
                }
            },
        };
        allocations.push(allocation);
        i = i + 1;
    }
    Ok(
        DepositPlan {
            deposit_usd_micro: deposit_usd,
            tvl_before: tvl,
            share_price,
            shares_to_mint,
            allocations,
            stake_amount,
            new_tvl,
            new_total_shares,
            new_share_price,
        },
    )
}

/// Precision of a withdrawal fraction: a fraction of one is this number.
pub const WITHDRAW_SCALE: u64 = 1_000_000;

/// Fraction of the vault that `shares` of `total_shares` redeem, scaled by
/// `WITHDRAW_SCALE` and rounded down.
pub open spec fn withdrawal_fraction(shares: int, total_shares: int) -> int {
    shares * 1_000_000 / total_shares
}

/// The part of `amount` that a scaled fraction stands for, rounded down.
pub open spec fn proportional(amount: int, fraction: int) -> int {
    amount * fraction / 1_000_000
}

/// The part of every balance that a scaled fraction stands for.
pub open spec fn proportional_amounts(balances: Seq<u64>, fraction: int) -> Seq<u64> {
    balances.map_values(|b: u64| proportional(b as int, fraction) as u64)
}

/// What stays of every balance once a scaled fraction of it is released.
pub open spec fn remaining_amounts(balances: Seq<u64>, fraction: int) -> Seq<u64> {
    balances.map_values(|b: u64| (b - proportional(b as int, fraction)) as u64)
}

/// Everything a redemption decides.
#[derive(Clone, Debug)]
pub struct WithdrawPlan {
    /// Share of the vault redeemed, scaled by `WITHDRAW_SCALE`.
    pub withdrawal_fraction: u64,
    /// Native units released of each asset, in basket order.
    pub amounts: Vec<u64>,
    /// Value of the released amounts, in micro-dollars.
    pub total_usd: i64,
    /// Value to unwind from the delegated strategy.
    pub strategy_unwind: u64,
    /// Part of the delegated principal that the redemption takes back.
    pub principal_share: u64,
    /// Value of the released amounts in the settlement token's native units.
    pub settlement_amount: u64,
    /// Value of the vault after the redemption: what stays of every holding
    /// and of the strategy.
    pub new_tvl: i64,
    pub new_total_shares: u64,
    pub new_share_price: i64,
}

/// The part of `amount` that a scaled fraction no greater than one stands for.
fn proportional_part(amount: u64, fraction: u64) -> (r: u64)
    requires
        fraction <= WITHDRAW_SCALE,
    ensures
        r == proportional(amount as int, fraction as int),
        r <= amount,
{
    assert((amount as int) * (fraction as int) <= (amount as int) * 1_000_000) by (nonlinear_arith)
        requires
            fraction <= 1_000_000,
    ;
    assert((amount as int) * (fraction as int) / 1_000_000 <= amount) by (nonlinear_arith)
        requires
            (amount as int) * (fraction as int) <= (amount as int) * 1_000_000,
    ;
    ((amount as u128) * (fraction as u128) / (WITHDRAW_SCALE as u128)) as u64
}

/// Computes the redemption of `shares` of `total_shares` by a holder of
/// `holder_shares`: the fraction redeemed, that fraction of every balance
/// and of the strategy's value and principal, the value released and its
/// amount in the settlement token. Fails with `InvalidAmount` for zero
/// shares, `InsufficientShares` for more shares than exist or than the holder
/// has, and `MathOverflow` where a value cannot be computed in `i64`. It also
/// values what stays in the vault and in the strategy, and prices the
/// remaining shares, failing as `calculate_share_price` does.
pub fn withdraw_multi_asset(
    vault: &Vault,
    shares: u64,
    holder_shares: u64,
    total_shares: u64,
    balances: &Vec<u64>,
    prices: &Vec<NormalizedPrice>,
    settlement_price: &NormalizedPrice,
    settlement_decimals: u8,
    strategy_value: u64,
    strategy_principal: u64,
) -> (r: Result<WithdrawPlan, VaultError>)
    requires
        vault.wf(),
        balances@.len() == vault.assets@.len(),
        prices@.len() == vault.assets@.len(),
        all_tradable(prices@),
        settlement_price.is_tradable(),
    ensures
        shares == 0 ==> r == Err::<WithdrawPlan, VaultError>(VaultError::InvalidAmount),
        shares > 0 && (shares > total_shares || shares > holder_shares) ==> r == Err::<
            WithdrawPlan,
            VaultError,
        >(VaultError::InsufficientShares),
        shares > 0 && shares <= total_shares && shares <= holder_shares ==> {
            let fraction = withdrawal_fraction(shares as int, total_shares as int);
            let amounts = proportional_amounts(balances@, fraction);
            match tvl_spec(amounts, prices@, decimals_of(vault.assets@), 0) {
                None => r == Err::<WithdrawPlan, VaultError>(VaultError::MathOverflow),
                Some(usd) => match usd_to_tokens_spec(
                    settlement_price.price_usd as int,
                    usd,
                    settlement_decimals as nat,
                ) {
                    None => r == Err::<WithdrawPlan, VaultError>(VaultError::MathOverflow),
                    Some(settled) => match tvl_spec(
                        remaining_amounts(balances@, fraction),
                        prices@,
                        decimals_of(vault.assets@),
                        strategy_value - proportional(strategy_value as int, fraction),
                    ) {
                        None => r == Err::<WithdrawPlan, VaultError>(VaultError::MathOverflow),
                        Some(new_tvl) => match share_price_spec(new_tvl, total_shares - shares) {
                            Err(e) => r == Err::<WithdrawPlan, VaultError>(e),
                            Ok(new_price) => r matches Ok(plan) && {
                                &&& plan.withdrawal_fraction == fraction
                                &&& plan.amounts@ == amounts
                                &&& plan.total_usd == usd
                                &&& plan.strategy_unwind == proportional(strategy_value as int, fraction)
                                &&& plan.principal_share == proportional(
                                    strategy_principal as int,
                                    fraction,
                                )
                                &&& plan.settlement_amount == settled
                                &&& plan.new_tvl == new_tvl
                                &&& plan.new_total_shares == total_shares - shares
                                &&& plan.new_share_price == new_price
                            },
                        },
                    },
                },
            }
        },
        shares > 0 && shares == total_shares ==> (r matches Ok(plan) ==> plan.amounts@ == balances@
            && plan.strategy_unwind == strategy_value && plan.principal_share == strategy_principal),
{
    if shares == 0 {
        return Err(VaultError::InvalidAmount);
    }
    if shares > total_shares || shares > holder_shares {
        return Err(VaultError::InsufficientShares);
    }
    assert((shares as int) * 1_000_000 / (total_shares as int) <= 1_000_000) by (nonlinear_arith)
        requires
            0 < shares <= total_shares,
    ;
    let fraction = ((shares as u128) * (WITHDRAW_SCALE as u128) / (total_shares as u128)) as u64;
    proof {
        if shares == total_shares {
            assert((shares as int) * 1_000_000 / (total_shares as int) == 1_000_000) by (nonlinear_arith)
                requires
                    0 < shares == total_shares,
            ;
        }
    }
    let n = balances.len();
    let mut amounts: Vec<u64> = Vec::new();
    let mut remaining: Vec<u64> = Vec::new();
    let mut i: usize = 0;
    while i < n
        invariant
            n == balances@.len(),
            i <= n,
            fraction <= WITHDRAW_SCALE,
            fraction == withdrawal_fraction(shares as int, total_shares as int),
            amounts@.len() == i,
            remaining@.len() == i,
            forall|j: int|
                0 <= j < i ==> #[trigger] remaining@[j] == balances@[j] - proportional(
                    balances@[j] as int,
                    fraction as int,
                ),
            forall|j: int|
                0 <= j < i ==> #[trigger] amounts@[j] == proportional(balances@[j] as int, fraction as int),
            fraction == WITHDRAW_SCALE ==> forall|j: int| 0 <= j < i ==> #[trigger] amounts@[j] == balances@[j],
        decreases n - i,
    {
        let part = proportional_part(balances[i], fraction);
        proof {
            if fraction == WITHDRAW_SCALE {
                assert((balances@[i as int] as int) * 1_000_000 / 1_000_000 == balances@[i as int]) by (nonlinear_arith);
            }
        }
        amounts.push(part);
        remaining.push(balances[i] - part);
        i = i + 1;
    }
    assert(amounts@ =~= proportional_amounts(balances@, fraction as int));
    assert(remaining@ =~= remaining_amounts(balances@, fraction as int));
    proof {
        if fraction == WITHDRAW_SCALE {
            assert(amounts@ =~= balances@);
            assert((strategy_value as int) * 1_000_000 / 1_000_000 == strategy_value) by (nonlinear_arith);
            assert((strategy_principal as int) * 1_000_000 / 1_000_000 == strategy_principal) by (nonlinear_arith);
        }
    }
    let (_weights, decimals) = basket_parameters(vault);
    let total_usd = match compute_tvl(&amounts, prices, &decimals, 0) {
        Ok(v) => v,
        Err(e) => return Err(e),
    };
    let settled = match settlement_price.usd_to_tokens(total_usd, settlement_decimals) {
        Ok(v) => v,
        Err(e) => return Err(e),
    };
    proof {
        lemma_pow10_positive(settlement_decimals as nat);
        let x = total_usd * pow10(settlement_decimals as nat);
        assert(x >= 0) by (nonlinear_arith)
            requires
                total_usd >= 0,
                pow10(settlement_decimals as nat) >= 1,
                x == total_usd * pow10(settlement_decimals as nat),
        ;
        lemma_trunc_div_shrinks(x, settlement_price.price_usd as int);
    }
    let strategy_unwind = proportional_part(strategy_value, fraction);
    let principal_share = proportional_part(strategy_principal, fraction);
    let new_tvl = match compute_tvl(&remaining, prices, &decimals, strategy_value - strategy_unwind) {
        Ok(v) => v,
        Err(e) => return Err(e),
    };
    let new_total_shares = total_shares - shares;
    let new_share_price = match Vault::calculate_share_price(new_tvl, new_total_shares) {
        Ok(v) => v,
        Err(e) => return Err(e),
    };
    Ok(
        WithdrawPlan {
            withdrawal_fraction: fraction,
            amounts,
            total_usd,
            strategy_unwind,
            principal_share,
            settlement_amount: settled as u64,
            new_tvl,
            new_total_shares,
            new_share_price,
        },
    )
}

/// Yield realised by unwinding part of the strategy: what came back minus the
/// principal it stood for. A loss is reported as a negative yield.
pub fn withdrawal_yield(received: u64, principal_share: u64) -> (r: i128)
    ensures
        r == received - principal_share,
{
    received as i128 - principal_share as i128
}

/// The part of a settlement that the vault pays from its own balance once
/// `received_from_strategy` has been paid by the strategy directly (never
/// below zero). Fails with `InsufficientBalance` where the vault has less
/// than that available.
pub fn native_settlement(settlement_amount: u64, received_from_strategy: u64, available: u64) -> (r:
    Result<u64, VaultError>)
    ensures
        ({
            let owed = if settlement_amount > received_from_strategy {
                settlement_amount - received_from_strategy
            } else {
                0
            };
            if available < owed {
                r == Err::<u64, VaultError>(VaultError::InsufficientBalance)
            } else {
                r == Ok::<u64, VaultError>(owed as u64)
            }
        }),
{
    let owed = settlement_amount.saturating_sub(received_from_strategy);
    if available < owed {
        return Err(VaultError::InsufficientBalance);
    }
    Ok(owed)
}

/// Redeeming every outstanding share releases exactly every balance: the
/// fraction is exactly one, and one of any amount is that amount.
pub proof fn lemma_full_redemption(total_shares: int, balance: int)
    requires
        total_shares > 0,
        balance >= 0,
    ensures
        withdrawal_fraction(total_shares, total_shares) == WITHDRAW_SCALE,
        proportional(balance, withdrawal_fraction(total_shares, total_shares)) == balance,
{
    assert(total_shares * 1_000_000 / total_shares == 1_000_000) by (nonlinear_arith)
        requires
            total_shares > 0,
    ;
    assert(balance * 1_000_000 / 1_000_000 == balance) by (nonlinear_arith);
}

/// A redemption releases the holder's proportional claim up to rounding: the
/// amount released of a balance, times the outstanding shares, is at most the
/// balance times the shares redeemed, and falls short of it by less than
/// `(balance / 10^6 + 1)` native units per outstanding share.
pub proof fn lemma_withdrawal_within_claim(shares: int, total_shares: int, balance: int)
    requires
        0 <= shares <= total_shares,
        total_shares > 0,
        balance >= 0,
    ensures
        proportional(balance, withdrawal_fraction(shares, total_shares)) * total_shares <= balance
            * shares,
        (balance * shares - proportional(balance, withdrawal_fraction(shares, total_shares))
            * total_shares) * 1_000_000 < (balance + 1_000_000) * total_shares,
{
    let f = withdrawal_fraction(shares, total_shares);
    let fm = (shares * 1_000_000) % total_shares;
    assert(shares * 1_000_000 == total_shares * f + fm && 0 <= fm < total_shares) by {
        vstd::arithmetic::div_mod::lemma_fundamental_div_mod(shares * 1_000_000, total_shares);
        vstd::arithmetic::div_mod::lemma_mod_pos_bound(shares * 1_000_000, total_shares);
    }
    let a = proportional(balance, f);
    let am = (balance * f) % 1_000_000;
    assert(balance * f == 1_000_000 * a + am && 0 <= am < 1_000_000) by {
        vstd::arithmetic::div_mod::lemma_fundamental_div_mod(balance * f, 1_000_000);
        vstd::arithmetic::div_mod::lemma_mod_pos_bound(balance * f, 1_000_000);
    }
    assert(f >= 0) by (nonlinear_arith)
        requires
            shares * 1_000_000 == total_shares * f + fm,
            0 <= fm < total_shares,
            shares >= 0,
    ;
    assert(a * total_shares <= balance * shares) by (nonlinear_arith)
        requires
            balance * f == 1_000_000 * a + am,
            0 <= am,
            shares * 1_000_000 == total_shares * f + fm,
            0 <= fm,
            balance >= 0,
            total_shares > 0,
    ;
    assert((balance * shares - a * total_shares) * 1_000_000 < (balance + 1_000_000) * total_shares)
        by (nonlinear_arith)
        requires
            balance * f == 1_000_000 * a + am,
            am < 1_000_000,
            shares * 1_000_000 == total_shares * f + fm,
            fm < total_shares,
            balance >= 0,
            total_shares > 0,
    ;
}

/// Depositing into an empty vault and redeeming the shares it minted, with
/// no price movement in between, returns every holding of the vault: the
/// first deposit mints one share unit per micro-dollar at the initial price,
/// those shares are all the shares, and redeeming all shares releases each
/// balance in full, hence exactly the value the vault holds.
pub proof fn lemma_first_deposit_round_trip(deposit_usd: int, balances: Seq<u64>)
    requires
        0 < deposit_usd,
        deposit_usd * 1_000_000_000 <= i64::MAX,
    ensures
        shares_to_mint_spec(deposit_usd, INITIAL_SHARE_PRICE as int) == Ok::<int, VaultError>(
            deposit_usd,
        ),
        share_price_spec(0, 0) == Ok::<int, VaultError>(INITIAL_SHARE_PRICE as int),
        proportional_amounts(balances, withdrawal_fraction(deposit_usd, deposit_usd)) == balances,
{
    assert(deposit_usd * 1_000_000_000 / 1_000_000 / 1_000 == deposit_usd) by (nonlinear_arith);
    assert(shares_for_deposit(deposit_usd, INITIAL_SHARE_PRICE as int) == deposit_usd);
    lemma_full_redemption(deposit_usd, 0);
    assert forall|j: int| 0 <= j < balances.len() implies proportional_amounts(
        balances,
        withdrawal_fraction(deposit_usd, deposit_usd),
    )[j] == balances[j] by {
        lemma_full_redemption(deposit_usd, balances[j] as int);
    }
    assert(proportional_amounts(balances, withdrawal_fraction(deposit_usd, deposit_usd)) =~= balances);
}

} // verus!
