//! Drift detection and rebalancing: how far each asset's share of the pool
//! has moved from its target weight, and a bounded greedy plan of swaps that
//! moves value from over-weighted assets to under-weighted ones.

use vstd::prelude::*;
use crate::error::VaultError;
use crate::price::{
    NormalizedPrice, in_i64, tokens_to_usd_defined, tokens_to_usd_spec, tokens_to_usd_value, usd_to_tokens_spec,
};
use crate::valuation::{all_tradable, holdings_defined, holdings_usd, lemma_holding_nonneg, lemma_holdings_monotone};
use crate::vault::{Pubkey, Vault, basket_parameters, decimals_of, weights_of};
use crate::math::{pow10, lemma_pow10_positive, lemma_trunc_div_shrinks};

verus! {

/// Largest number of swaps in one plan.
pub const MAX_SWAPS: usize = 6;

/// The least output accepted is this percentage of the expected output.
pub const MIN_OUT_PERCENT: u128 = 99;

/// How far one asset is from its target weight.
#[derive(Clone, Copy, Debug, PartialEq, Eq, Structural)]
pub struct DriftEntry {
    /// Value held, in micro-dollars.
    pub current_usd: i64,
    /// Value the target weight asks for, in micro-dollars.
    pub target_usd: i64,
    /// Share of the pool, in whole percent (rounded down).
    pub current_weight: i64,
    /// Target weight, in percent.
    pub target_weight: u8,
    /// `current_weight - target_weight`.
    pub drift: i64,
    /// Whether `|drift|` is strictly greater than the threshold.
    pub exceeds_threshold: bool,
}

/// Drift of every asset of a pool.
#[derive(Clone, Debug)]
pub struct DriftReport {
    pub entries: Vec<DriftEntry>,
    /// Value of the pool, in micro-dollars.
    pub total_usd: i64,
    /// Whether some asset exceeds the threshold.
    pub needs_rebalance: bool,
}

/// One planned swap: sell `amount_in` native units of asset `from_asset` for
/// at least `min_amount_out` native units of asset `to_asset`.
#[derive(Clone, Copy, Debug, PartialEq, Eq, Structural)]
pub struct SwapInstruction {
    pub from_asset: usize,
    pub to_asset: usize,
    pub amount_in: u64,
    pub min_amount_out: u64,
}

/// The drift entry of an asset worth `value` in a pool worth `total`, or
/// `None` where checked `i64` arithmetic fails. In an empty pool every
/// weight and drift is zero and nothing exceeds the threshold.
pub open spec fn drift_entry(value: int, total: int, weight: u8, threshold: int) -> Option<DriftEntry> {
    if total == 0 {
        Some(
            DriftEntry {
                current_usd: value as i64,
                target_usd: 0,
                current_weight: 0,
                target_weight: weight,
                drift: 0,
                exceeds_threshold: false,
            },
        )
    } else if !in_i64(total * weight) || !in_i64(value * 100) {
        None
    } else {
        let current_weight = value * 100 / total;
        let drift = current_weight - weight;
        Some(
            DriftEntry {
                current_usd: value as i64,
                target_usd: (total * weight / 100) as i64,
                current_weight: current_weight as i64,
                target_weight: weight,
                drift: drift as i64,
                exceeds_threshold: drift > threshold || -drift > threshold,
            },
        )
    }
}

/// Value of asset `i`, in micro-dollars.
pub open spec fn asset_value(
    balances: Seq<u64>,
    prices: Seq<NormalizedPrice>,
    decimals: Seq<u8>,
    i: int,
) -> int {
    tokens_to_usd_value(prices[i].price_usd as int, balances[i] as int, decimals[i] as nat)
}

/// The drift entries of every asset (meaningful where `drift_defined` holds).
pub open spec fn drift_entries(
    balances: Seq<u64>,
    prices: Seq<NormalizedPrice>,
    weights: Seq<u8>,
    decimals: Seq<u8>,
    threshold: int,
) -> Seq<DriftEntry> {
    Seq::new(
        balances.len(),
        |i: int|
            match drift_entry(
                asset_value(balances, prices, decimals, i),
                holdings_usd(balances, prices, decimals, balances.len()),
                weights[i],
                threshold,
            ) {
                Some(e) => e,
                None => arbitrary(),
            },
    )
}

/// Whether some entry exceeds its threshold.
pub open spec fn any_exceeds(entries: Seq<DriftEntry>) -> bool {
    exists|i: int| 0 <= i < entries.len() && (#[trigger] entries[i]).exceeds_threshold
}

/// Whether the drift of every asset can be computed.
pub open spec fn drift_defined(
    balances: Seq<u64>,
    prices: Seq<NormalizedPrice>,
    weights: Seq<u8>,
    decimals: Seq<u8>,
    threshold: int,
) -> bool {
    let total = holdings_usd(balances, prices, decimals, balances.len());
    &&& holdings_defined(balances, prices, decimals)
    &&& total <= i64::MAX
    &&& forall|i: int|
        0 <= i < balances.len() ==> (#[trigger] drift_entry(
            asset_value(balances, prices, decimals, i),
            total,
            weights[i],
            threshold,
        )) is Some
}

/// Measures the drift of every asset against its target weight (see
/// `drift_entry`). Fails with `MathOverflow` where a value, the total or a
/// weight cannot be computed in `i64`.
pub fn evaluate_drift(
    balances: &Vec<u64>,
    prices: &Vec<NormalizedPrice>,
    weights: &Vec<u8>,
    decimals: &Vec<u8>,
    threshold_percent: i64,
) -> (r: Result<DriftReport, VaultError>)
    requires
        prices@.len() == balances@.len(),
        weights@.len() == balances@.len(),
        decimals@.len() == balances@.len(),
        all_tradable(prices@),
    ensures
        r is Ok <==> drift_defined(
            balances@,
            prices@,
            weights@,
            decimals@,
            threshold_percent as int,
        ),
        r is Err ==> r == Err::<DriftReport, VaultError>(VaultError::MathOverflow),
        r matches Ok(report) ==> {
            let total = holdings_usd(balances@, prices@, decimals@, balances@.len());
            &&& report.total_usd == total
            &&& report.entries@.len() == balances@.len()
            &&& forall|i: int|
                0 <= i < balances@.len() ==> drift_entry(
                    asset_value(balances@, prices@, decimals@, i),
                    total,
                    weights@[i],
                    threshold_percent as int,
                ) == Some(#[trigger] report.entries@[i])
            &&& report.needs_rebalance == exists|i: int|
                0 <= i < balances@.len() && (#[trigger] report.entries@[i]).exceeds_threshold
            &&& total == 0 ==> !report.needs_rebalance
            &&& report.entries@ == drift_entries(
                balances@,
                prices@,
                weights@,
                decimals@,
                threshold_percent as int,
            )
            &&& report.needs_rebalance == any_exceeds(report.entries@)
        },
{
    let n = balances.len();
    let mut values: Vec<i64> = Vec::new();
    let mut total: i64 = 0;
    let mut i: usize = 0;
    while i < n
        invariant
            n == balances@.len(),
            i <= n,
            prices@.len() == n,
            decimals@.len() == n,
            all_tradable(prices@),
            values@.len() == i,
            total == holdings_usd(balances@, prices@, decimals@, i as nat),
            forall|j: int|
                0 <= j < i ==> tokens_to_usd_defined(
                    #[trigger] prices@[j].price_usd as int,
                    balances@[j] as int,
                    decimals@[j] as nat,
                ),
            forall|j: int|
                0 <= j < i ==> #[trigger] values@[j] == asset_value(balances@, prices@, decimals@, j),
        decreases n - i,
    {
        let value = match prices[i].tokens_to_usd(balances[i], decimals[i]) {
            Ok(v) => v,
            Err(e) => return Err(e),
        };
        proof {
            lemma_holdings_monotone(balances@, prices@, decimals@, (i + 1) as nat, n as nat);
            assert(prices@[i as int].is_tradable());
            lemma_holding_nonneg(
                prices@[i as int].price_usd as int,
                balances@[i as int] as int,
                decimals@[i as int] as nat,
            );
        }
        total = match total.checked_add(value) {
            Some(t) => t,
            None => return Err(VaultError::MathOverflow),
        };
        values.push(value);
        i = i + 1;
    }
    proof {
        lemma_holdings_monotone(balances@, prices@, decimals@, 0, n as nat);
    }
    let mut entries: Vec<DriftEntry> = Vec::new();
    let mut needs_rebalance = false;
    let mut i: usize = 0;
    while i < n
        invariant
            n == balances@.len(),
            i <= n,
            prices@.len() == n,
            weights@.len() == n,
            decimals@.len() == n,
            all_tradable(prices@),
            values@.len() == n,
            total >= 0,
            total == holdings_usd(balances@, prices@, decimals@, n as nat),
            holdings_defined(balances@, prices@, decimals@),
            forall|j: int|
                0 <= j < n ==> #[trigger] values@[j] == asset_value(balances@, prices@, decimals@, j),
            entries@.len() == i,
            forall|j: int|
                0 <= j < i ==> drift_entry(
                    asset_value(balances@, prices@, decimals@, j),
                    total as int,
                    weights@[j],
                    threshold_percent as int,
                ) == Some(#[trigger] entries@[j]),
            needs_rebalance == exists|j: int| 0 <= j < i && (#[trigger] entries@[j]).exceeds_threshold,
            total == 0 ==> !needs_rebalance,
        decreases n - i,
    {
        let value = values[i];
        let weight = weights[i];
        let entry = if total == 0 {
            DriftEntry {
                current_usd: value,
                target_usd: 0,
                current_weight: 0,
                target_weight: weight,
                drift: 0,
                exceeds_threshold: false,
            }
        } else {
            let scaled_total = match total.checked_mul(weight as i64) {
                Some(v) => v,
                None => {
                    proof {
                        assert(drift_entry(
                            asset_value(balances@, prices@, decimals@, i as int),
                            total as int,
                            weights@[i as int],
                            threshold_percent as int,
                        ) is None);
                    }
                    return Err(VaultError::MathOverflow);
                },
            };
            let scaled_value = match value.checked_mul(100) {
                Some(v) => v,
                None => {
                    proof {
                        assert(drift_entry(
                            asset_value(balances@, prices@, decimals@, i as int),
                            total as int,
                            weights@[i as int],
                            threshold_percent as int,
                        ) is None);
                    }
                    return Err(VaultError::MathOverflow);
                },
            };
            proof {
                assert(prices@[i as int].is_tradable());
                lemma_holding_nonneg(
                    prices@[i as int].price_usd as int,
                    balances@[i as int] as int,
                    decimals@[i as int] as nat,
                );
                assert(0 <= (scaled_value as int) / (total as int) <= scaled_value) by (nonlinear_arith)
                    requires
                        scaled_value >= 0,
                        total > 0,
                ;
                assert(0 <= (scaled_total as int) / 100 <= scaled_total) by (nonlinear_arith)
                    requires
                        scaled_total >= 0,
                ;
            }
            let current_weight = scaled_value / total;
            let drift = current_weight - weight as i64;
            DriftEntry {
                current_usd: value,
                target_usd: scaled_total / 100,
                current_weight,
                target_weight: weight,
                drift,
                exceeds_threshold: drift > threshold_percent || -drift > threshold_percent,
            }
        };
        let ghost before = entries@;
        if entry.exceeds_threshold {
            needs_rebalance = true;
        }
        entries.push(entry);
        proof {
            assert(entries@[i as int] == entry);
            assert forall|j: int| 0 <= j < i implies #[trigger] entries@[j] == before[j] by {}
            if needs_rebalance && !entry.exceeds_threshold {
                let w = choose|j: int| 0 <= j < i && (#[trigger] before[j]).exceeds_threshold;
                assert(entries@[w].exceeds_threshold);
            }
        }
        i = i + 1;
    }
    proof {
        assert forall|j: int| 0 <= j < n implies (#[trigger] drift_entry(
            asset_value(balances@, prices@, decimals@, j),
            total as int,
            weights@[j],
            threshold_percent as int,
        )) is Some by {
            assert(drift_entry(
                asset_value(balances@, prices@, decimals@, j),
                total as int,
                weights@[j],
                threshold_percent as int,
            ) == Some(entries@[j]));
        }
        assert(entries@ =~= drift_entries(
            balances@,
            prices@,
            weights@,
            decimals@,
            threshold_percent as int,
        ));
    }
    Ok(DriftReport { entries, total_usd: total, needs_rebalance })
}

/// With every balance zero the pool holds nothing.
proof fn lemma_zero_holdings(
    balances: Seq<u64>,
    prices: Seq<NormalizedPrice>,
    decimals: Seq<u8>,
    n: nat,
)
    requires
        n <= balances.len(),
        forall|i: int| 0 <= i < balances.len() ==> #[trigger] balances[i] == 0,
    ensures
        holdings_usd(balances, prices, decimals, n) == 0,
    decreases n,
{
    if n > 0 {
        lemma_zero_holdings(balances, prices, decimals, (n - 1) as nat);
        assert(balances[n - 1] == 0);
    }
}

/// An empty pool is measured without error when no asset has more than 18
/// decimals: every weight and drift is zero and nothing needs rebalancing.
pub proof fn lemma_empty_pool_no_rebalance(
    balances: Seq<u64>,
    prices: Seq<NormalizedPrice>,
    weights: Seq<u8>,
    decimals: Seq<u8>,
    threshold: int,
)
    requires
        prices.len() == balances.len(),
        weights.len() == balances.len(),
        decimals.len() == balances.len(),
        forall|i: int| 0 <= i < balances.len() ==> #[trigger] balances[i] == 0,
        forall|i: int| 0 <= i < decimals.len() ==> #[trigger] decimals[i] <= 18,
    ensures
        holdings_usd(balances, prices, decimals, balances.len()) == 0,
        drift_defined(balances, prices, weights, decimals, threshold),
        !any_exceeds(drift_entries(balances, prices, weights, decimals, threshold)),
        forall|i: int|
            0 <= i < balances.len() ==> (#[trigger] drift_entries(
                balances,
                prices,
                weights,
                decimals,
                threshold,
            )[i]).current_weight == 0,
{
    lemma_zero_holdings(balances, prices, decimals, balances.len());
    assert forall|i: int| 0 <= i < balances.len() implies tokens_to_usd_defined(
        #[trigger] prices[i].price_usd as int,
        balances[i] as int,
        decimals[i] as nat,
    ) by {
        assert(balances[i] == 0);
        assert(decimals[i] <= 18);
    }
    assert forall|i: int| 0 <= i < balances.len() implies (#[trigger] drift_entry(
        asset_value(balances, prices, decimals, i),
        holdings_usd(balances, prices, decimals, balances.len()),
        weights[i],
        threshold,
    )) is Some by {}
    let entries = drift_entries(balances, prices, weights, decimals, threshold);
    assert forall|i: int| 0 <= i < entries.len() implies !(#[trigger] entries[i]).exceeds_threshold
        && entries[i].current_weight == 0 by {}
}

/// A drift exactly at the threshold is not flagged: the comparison is strict.
/// Where the pool has value and the checked products fit in `i64`, an asset
/// whose current weight is its target plus the threshold drifts by exactly
/// the threshold and does not exceed it.
pub proof fn lemma_drift_at_threshold_not_flagged(value: int, total: int, weight: u8, threshold: int)
    requires
        total > 0,
        in_i64(total * weight),
        in_i64(value * 100),
        0 <= threshold <= 100,
        value * 100 / total == weight + threshold,
    ensures
        drift_entry(value, total, weight, threshold) matches Some(e) && e.drift == threshold
            && !e.exceeds_threshold && e.current_weight == weight + threshold,
{
}

/// Gaps are kept within this bound, which every `i64` difference respects.
pub const GAP_BOUND: i128 = 0x1_0000_0000_0000_0000;

/// Signed gap of each asset: the value it holds minus the value its target asks for.
pub open spec fn initial_gaps(entries: Seq<DriftEntry>) -> Seq<int> {
    Seq::new(entries.len(), |i: int| entries[i].current_usd - entries[i].target_usd)
}

/// The gaps of an executable plan state as integers.
pub open spec fn gaps_int(gaps: Seq<i128>) -> Seq<int> {
    gaps.map_values(|g: i128| g as int)
}

pub open spec fn gaps_bounded(gaps: Seq<i128>) -> bool {
    forall|j: int| 0 <= j < gaps.len() ==> -GAP_BOUND <= #[trigger] gaps[j] <= GAP_BOUND
}

/// One step of the greedy plan, on the pair (`i` sells, `j` buys). Where `i`
/// is over its target, `j` under its target, and the plan still has room, the
/// smaller of the two gaps moves from `i` to `j`: the swap sells that value's
/// worth of `i` (rounded down to native units) and accepts 99% of the output
/// that the sold amount is worth in `j` at current prices.
pub open spec fn plan_step(
    gaps: Seq<int>,
    swaps: Seq<SwapInstruction>,
    prices: Seq<NormalizedPrice>,
    decimals: Seq<u8>,
    i: int,
    j: int,
) -> Result<(Seq<int>, Seq<SwapInstruction>), VaultError> {
    if i == j || swaps.len() >= MAX_SWAPS || gaps[i] <= 0 || gaps[j] >= 0 {
        Ok((gaps, swaps))
    } else {
        let amount = if gaps[i] <= -gaps[j] {
            gaps[i]
        } else {
            -gaps[j]
        };
        if amount > i64::MAX {
            Err(VaultError::MathOverflow)
        } else {
            match usd_to_tokens_spec(prices[i].price_usd as int, amount, decimals[i] as nat) {
                None => Err(VaultError::MathOverflow),
                Some(amount_in) => match tokens_to_usd_spec(
                    prices[i].price_usd as int,
                    amount_in,
                    decimals[i] as nat,
                ) {
                    None => Err(VaultError::MathOverflow),
                    Some(value_in) => match usd_to_tokens_spec(
                        prices[j].price_usd as int,
                        value_in,
                        decimals[j] as nat,
                    ) {
                        None => Err(VaultError::MathOverflow),
                        Some(out) => Ok(
                            (
                                gaps.update(i, gaps[i] - amount).update(j, gaps[j] + amount),
                                swaps.push(
                                    SwapInstruction {
                                        from_asset: i as usize,
                                        to_asset: j as usize,
                                        amount_in: amount_in as u64,
                                        min_amount_out: (out * 99 / 100) as u64,
                                    },
                                ),
                            ),
                        ),
                    },
                },
            }
        }
    }
}

/// No asset is still over its target, or no asset is still under it.
pub open spec fn one_side_exhausted(gaps: Seq<int>) -> bool {
    forall|a: int, b: int| 0 <= a < gaps.len() && 0 <= b < gaps.len() ==> #[trigger] gaps[a] <= 0 || #[trigger] gaps[b] >= 0
}

/// The plan, once every pair has been taken, leaves one side exhausted.
pub open spec fn plan_exhausts_one_side(
    entries: Seq<DriftEntry>,
    prices: Seq<NormalizedPrice>,
    decimals: Seq<u8>,
) -> bool {
    match plan_after(entries, prices, decimals, entries.len() * entries.len()) {
        Ok(st) => one_side_exhausted(st.0),
        Err(_) => false,
    }
}

/// The plan after the first `k` pairs, taken in order: every selling asset
/// in turn, and for each every buying asset in turn.
pub open spec fn plan_after(
    entries: Seq<DriftEntry>,
    prices: Seq<NormalizedPrice>,
    decimals: Seq<u8>,
    k: nat,
) -> Result<(Seq<int>, Seq<SwapInstruction>), VaultError>
    decreases k,
{
    if k == 0 {
        Ok((initial_gaps(entries), Seq::empty()))
    } else {
        let n = entries.len() as int;
        match plan_after(entries, prices, decimals, (k - 1) as nat) {
            Err(e) => Err(e),
            Ok(st) => plan_step(st.0, st.1, prices, decimals, (k - 1) / n, (k - 1) % n),
        }
    }
}

/// The swaps that rebalancing plans for a drift report.
pub open spec fn planned_swaps(
    entries: Seq<DriftEntry>,
    prices: Seq<NormalizedPrice>,
    decimals: Seq<u8>,
) -> Result<Seq<SwapInstruction>, VaultError> {
    match plan_after(entries, prices, decimals, entries.len() * entries.len()) {
        Ok(st) => Ok(st.1),
        Err(e) => Err(e),
    }
}

proof fn lemma_plan_error_persists(
    entries: Seq<DriftEntry>,
    prices: Seq<NormalizedPrice>,
    decimals: Seq<u8>,
    k1: nat,
    k2: nat,
)
    requires
        k1 <= k2,
        plan_after(entries, prices, decimals, k1) is Err,
    ensures
        plan_after(entries, prices, decimals, k2) == plan_after(entries, prices, decimals, k1),
    decreases k2,
{
    if k1 < k2 {
        lemma_plan_error_persists(entries, prices, decimals, k1, (k2 - 1) as nat);
    }
}

/// Planning is a function of its inputs: two plans made from the same drift
/// report, prices and decimals are the same sequence of swaps.
pub proof fn lemma_plan_deterministic(
    entries1: Seq<DriftEntry>,
    prices1: Seq<NormalizedPrice>,
    decimals1: Seq<u8>,
    entries2: Seq<DriftEntry>,
    prices2: Seq<NormalizedPrice>,
    decimals2: Seq<u8>,
)
    requires
        entries1 == entries2,
        prices1 == prices2,
        decimals1 == decimals2,
    ensures
        planned_swaps(entries1, prices1, decimals1) == planned_swaps(entries2, prices2, decimals2),
{
}

/// Applies `plan_step` for the pair (`i`, `j`) to the executable plan state.
fn apply_pair(
    gaps: &mut Vec<i128>,
    swaps: &mut Vec<SwapInstruction>,
    prices: &Vec<NormalizedPrice>,
    decimals: &Vec<u8>,
    i: usize,
    j: usize,
) -> (r: Result<(), VaultError>)
    requires
        i < old(gaps)@.len(),
        j < old(gaps)@.len(),
        prices@.len() == old(gaps)@.len(),
        decimals@.len() == old(gaps)@.len(),
        all_tradable(prices@),
        gaps_bounded(old(gaps)@),
        old(swaps)@.len() <= MAX_SWAPS,
    ensures
        final(gaps)@.len() == old(gaps)@.len(),
        gaps_bounded(final(gaps)@),
        old(swaps)@.len() <= final(swaps)@.len() <= MAX_SWAPS,
        forall|m: int|
            0 <= m < old(gaps)@.len() ==> (old(gaps)@[m] <= 0 ==> #[trigger] final(gaps)@[m] <= 0) && (
            old(gaps)@[m] >= 0 ==> final(gaps)@[m] >= 0),
        r is Ok && final(swaps)@.len() < MAX_SWAPS && i != j ==> final(gaps)@[i as int] <= 0
            || final(gaps)@[j as int] >= 0,
        match plan_step(gaps_int(old(gaps)@), old(swaps)@, prices@, decimals@, i as int, j as int) {
            Ok(st) => r is Ok && gaps_int(final(gaps)@) == st.0 && final(swaps)@ == st.1,
            Err(e) => r == Err::<(), VaultError>(e),
        },
{
    let ghost g = gaps_int(gaps@);
    assert(g[i as int] == gaps@[i as int] && g[j as int] == gaps@[j as int]);
    let gi = gaps[i];
    let gj = gaps[j];
    if i == j || swaps.len() >= MAX_SWAPS || gi <= 0 || gj >= 0 {
        return Ok(());
    }
    let deficit = -gj;
    let amount = if gi <= deficit {
        gi
    } else {
        deficit
    };
    if amount > i64::MAX as i128 {
        return Err(VaultError::MathOverflow);
    }
    let amount_in = match prices[i].usd_to_tokens(amount as i64, decimals[i]) {
        Ok(v) => v,
        Err(e) => return Err(e),
    };
    proof {
        assert(prices@[i as int].is_tradable());
        assert(prices@[j as int].is_tradable());
        lemma_pow10_positive(decimals@[i as int] as nat);
        let x = amount * pow10(decimals@[i as int] as nat);
        assert(x >= 0) by (nonlinear_arith)
            requires
                amount > 0,
                pow10(decimals@[i as int] as nat) >= 1,
                x == amount * pow10(decimals@[i as int] as nat),
        ;
        lemma_trunc_div_shrinks(x, prices@[i as int].price_usd as int);
    }
    let value_in = match prices[i].tokens_to_usd(amount_in as u64, decimals[i]) {
        Ok(v) => v,
        Err(e) => return Err(e),
    };
    proof {
        lemma_holding_nonneg(prices@[i as int].price_usd as int, amount_in as int, decimals@[i as int] as nat);
    }
    let out = match prices[j].usd_to_tokens(value_in, decimals[j]) {
        Ok(v) => v,
        Err(e) => return Err(e),
    };
    proof {
        lemma_pow10_positive(decimals@[j as int] as nat);
        let y = value_in * pow10(decimals@[j as int] as nat);
        assert(y >= 0) by (nonlinear_arith)
            requires
                value_in >= 0,
                pow10(decimals@[j as int] as nat) >= 1,
                y == value_in * pow10(decimals@[j as int] as nat),
        ;
        lemma_trunc_div_shrinks(y, prices@[j as int].price_usd as int);
        assert((out as int) * 99 / 100 <= out) by (nonlinear_arith)
            requires
                out >= 0,
        ;
    }
    let min_out = ((out as u128) * MIN_OUT_PERCENT / 100) as u64;
    gaps.set(i, gi - amount);
    gaps.set(j, gj + amount);
    swaps.push(
        SwapInstruction { from_asset: i, to_asset: j, amount_in: amount_in as u64, min_amount_out: min_out },
    );
    proof {
        assert(gaps_int(gaps@) =~= g.update(i as int, g[i as int] - amount).update(
            j as int,
            g[j as int] + amount,
        ));
    }
    Ok(())
}

/// Plans the swaps that bring the pool back toward its targets (see
/// `plan_after`): at most six, each from an asset above its target to one
/// below it. A plan of fewer than six swaps leaves no asset above its target
/// or none below it. Fails where a conversion overflows.
pub fn plan_rebalance(
    report: &DriftReport,
    prices: &Vec<NormalizedPrice>,
    decimals: &Vec<u8>,
) -> (r: Result<Vec<SwapInstruction>, VaultError>)
    requires
        prices@.len() == report.entries@.len(),
        decimals@.len() == report.entries@.len(),
        all_tradable(prices@),
        report.entries@.len() * report.entries@.len() <= usize::MAX,
    ensures
        match planned_swaps(report.entries@, prices@, decimals@) {
            Ok(s) => r matches Ok(v) && v@ == s,
            Err(e) => r == Err::<Vec<SwapInstruction>, VaultError>(e),
        },
        r matches Ok(v) ==> v@.len() <= MAX_SWAPS,
        r matches Ok(v) ==> (v@.len() < MAX_SWAPS ==> plan_exhausts_one_side(
            report.entries@,
            prices@,
            decimals@,
        )),
{
    let n = report.entries.len();
    let ghost entries = report.entries@;
    let mut gaps: Vec<i128> = Vec::new();
    let mut i: usize = 0;
    while i < n
        invariant
            n == entries.len(),
            entries == report.entries@,
            i <= n,
            gaps@.len() == i,
            gaps_bounded(gaps@),
            forall|j: int| 0 <= j < i ==> #[trigger] gaps@[j] == initial_gaps(entries)[j],
        decreases n - i,
    {
        let e = report.entries[i];
        gaps.push(e.current_usd as i128 - e.target_usd as i128);
        i = i + 1;
    }
    assert(gaps_int(gaps@) =~= initial_gaps(entries));
    let mut swaps: Vec<SwapInstruction> = Vec::new();
    let pairs = n * n;
    let mut k: usize = 0;
    while k < pairs
        invariant
            n == entries.len(),
            entries == report.entries@,
            pairs == n * n,
            k <= pairs,
            prices@.len() == n,
            decimals@.len() == n,
            all_tradable(prices@),
            gaps@.len() == n,
            gaps_bounded(gaps@),
            swaps@.len() <= MAX_SWAPS,
            plan_after(entries, prices@, decimals@, k as nat) == Ok::<
                (Seq<int>, Seq<SwapInstruction>),
                VaultError,
            >((gaps_int(gaps@), swaps@)),
            swaps@.len() < MAX_SWAPS ==> forall|a: int, b: int|
                0 <= a < n && 0 <= b < n && a * n + b < k && a != b ==> #[trigger] gaps@[a] <= 0
                    || #[trigger] gaps@[b] >= 0,
        decreases pairs - k,
    {
        assert(k / n < n && k % n < n) by (nonlinear_arith)
            requires
                k < n * n,
                n > 0,
        ;
        let from = k / n;
        let to = k % n;
        let ghost old_gaps = gaps@;
        let ghost old_len = swaps@.len();
        match apply_pair(&mut gaps, &mut swaps, prices, decimals, from, to) {
            Ok(()) => {
                proof {
                    if swaps@.len() < MAX_SWAPS {
                        assert forall|a: int, b: int|
                            0 <= a < n && 0 <= b < n && a * n + b < k + 1 && a != b implies #[trigger] gaps@[a]
                            <= 0 || #[trigger] gaps@[b] >= 0 by {
                            if a * n + b == k {
                                assert(a == k / n && b == k % n) by (nonlinear_arith)
                                    requires
                                        a * n + b == k,
                                        0 <= b < n,
                                        0 <= a,
                                ;
                            } else {
                                assert(old_gaps[a] <= 0 || old_gaps[b] >= 0);
                            }
                        }
                    }
                }
            },
            Err(e) => {
                proof {
                    lemma_plan_error_persists(entries, prices@, decimals@, (k + 1) as nat, pairs as nat);
                }
                return Err(e);
            },
        }
        k = k + 1;
    }
    proof {
        if swaps@.len() < MAX_SWAPS {
            let g = gaps_int(gaps@);
            assert forall|a: int, b: int| 0 <= a < g.len() && 0 <= b < g.len() implies #[trigger] g[a] <= 0
                || #[trigger] g[b] >= 0 by {
                if a != b {
                    assert(a * n + b < n * n) by (nonlinear_arith)
                        requires
                            0 <= a < n,
                            0 <= b < n,
                    ;
                    assert(gaps@[a] <= 0 || gaps@[b] >= 0);
                }
            }
        }
    }
    Ok(swaps)
}

/// Rebalancing of a vault by its admin: measures the drift of each asset
/// against its target weight and, where some asset drifts by more than
/// `threshold_percent`, plans the swaps that move value back. Only the admin
/// may (`Unauthorized`); an undrifted or empty pool gets an empty plan.
pub fn rebalance(
    vault: &Vault,
    authority: &Pubkey,
    balances: &Vec<u64>,
    prices: &Vec<NormalizedPrice>,
    threshold_percent: i64,
) -> (r: Result<Vec<SwapInstruction>, VaultError>)
    requires
        vault.wf(),
        balances@.len() == vault.assets@.len(),
        prices@.len() == vault.assets@.len(),
        all_tradable(prices@),
    ensures
        authority@ != vault.admin@ ==> r == Err::<Vec<SwapInstruction>, VaultError>(
            VaultError::Unauthorized,
        ),
        authority@ == vault.admin@ && !drift_defined(
            balances@,
            prices@,
            weights_of(vault.assets@),
            decimals_of(vault.assets@),
            threshold_percent as int,
        ) ==> r == Err::<Vec<SwapInstruction>, VaultError>(VaultError::MathOverflow),
        authority@ == vault.admin@ && drift_defined(
            balances@,
            prices@,
            weights_of(vault.assets@),
            decimals_of(vault.assets@),
            threshold_percent as int,
        ) ==> {
            let entries = drift_entries(
                balances@,
                prices@,
                weights_of(vault.assets@),
                decimals_of(vault.assets@),
                threshold_percent as int,
            );
            if !any_exceeds(entries) {
                r matches Ok(v) && v@.len() == 0
            } else {
                match planned_swaps(entries, prices@, decimals_of(vault.assets@)) {
                    Ok(s) => r matches Ok(v) && v@ == s,
                    Err(e) => r == Err::<Vec<SwapInstruction>, VaultError>(e),
                }
            }
        },
{
    if *authority != vault.admin {
        return Err(VaultError::Unauthorized);
    }
    let (weights, decimals) = basket_parameters(vault);
    let report = match evaluate_drift(balances, prices, &weights, &decimals, threshold_percent) {
        Ok(rep) => rep,
        Err(e) => return Err(e),
    };
    if !report.needs_rebalance {
        return Ok(Vec::new());
    }
    assert(report.entries@.len() * report.entries@.len() <= 100) by (nonlinear_arith)
        requires
            report.entries@.len() <= 10,
    ;
    plan_rebalance(&report, prices, &decimals)
}

} // verus!
