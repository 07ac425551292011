//! The rebalancing decision as computed on the confidential path: from the
//! balances, prices, target and current weights of a three-asset basket, the
//! drift of each asset, whether any exceeds the threshold, and the total value.

use vstd::prelude::*;
use crate::error::VaultError;
use crate::price::NormalizedPrice;
use crate::rebalance::{any_exceeds, drift_defined, drift_entries};
use crate::vault::{PriceSource, Pubkey, Vault};
use crate::bytes::{le_bytes, push_all, push_le};
use crate::valuation::{all_tradable, holdings_usd, lemma_holding_nonneg, lemma_holdings_monotone};

verus! {

/// Plaintext form of the confidential computation's input.
#[derive(Clone, Copy, Debug)]
pub struct RebalancingInput {
    pub btc_balance: u64,
    pub eth_balance: u64,
    pub sol_balance: u64,
    /// Prices in micro-dollars per native unit group (value is
    /// `balance × price / 10^6`).
    pub btc_price: u64,
    pub eth_price: u64,
    pub sol_price: u64,
    /// Target weights, in percent.
    pub btc_weight: u8,
    pub eth_weight: u8,
    pub sol_weight: u8,
    /// Current weights, in percent.
    pub btc_current: u8,
    pub eth_current: u8,
    pub sol_current: u8,
    /// Largest drift, in percentage points, that needs no rebalance.
    pub threshold: u8,
}

/// Plaintext form of the confidential computation's output.
#[derive(Clone, Copy, Debug, PartialEq, Eq, Structural)]
pub struct RebalancingResult {
    pub needs_rebalance: bool,
    /// Drifts in percentage points (current minus target).
    pub btc_drift: i16,
    pub eth_drift: i16,
    pub sol_drift: i16,
    /// Total value, in micro-dollars.
    pub total_tvl: u64,
}

/// Whether a drift exceeds a threshold in either direction.
pub open spec fn exceeds(drift: int, threshold: int) -> bool {
    drift > threshold || -drift > threshold
}

/// Whether some supplied drift exceeds the threshold.
pub open spec fn drift_exceeds(input: RebalancingInput) -> bool {
    exceeds(input.btc_current - input.btc_weight, input.threshold as int) || exceeds(
        input.eth_current - input.eth_weight,
        input.threshold as int,
    ) || exceeds(input.sol_current - input.sol_weight, input.threshold as int)
}

/// The decision of the confidential path: an empty pool never needs a
/// rebalance; otherwise one is needed where some drift exceeds the threshold.
pub open spec fn confidential_decision(input: RebalancingInput) -> bool {
    confidential_tvl(input) != 0 && drift_exceeds(input)
}

/// Total value the confidential path computes.
pub open spec fn confidential_tvl(input: RebalancingInput) -> int {
    input.btc_balance * input.btc_price / 1_000_000 + input.eth_balance * input.eth_price / 1_000_000
        + input.sol_balance * input.sol_price / 1_000_000
}

fn position_value(balance: u64, price: u64) -> (r: u128)
    ensures
        r == balance * price / 1_000_000,
        r <= u64::MAX * u64::MAX,
{
    assert((balance as int) * (price as int) <= u64::MAX * u64::MAX) by (nonlinear_arith)
        requires
            balance <= u64::MAX,
            price <= u64::MAX,
    ;
    (balance as u128) * (price as u128) / 1_000_000
}

/// Computes the confidential path's result in the clear: the total is the
/// sum of `balance × price / 10^6`; an empty pool reports zero drifts and no
/// rebalance; otherwise each drift is the current weight minus the target
/// weight, and a rebalance is needed where some drift exceeds the threshold in
/// either direction. Fails with `MathOverflow` where the total
/// exceeds `u64`.
pub fn compute_rebalancing(input: &RebalancingInput) -> (r: Result<RebalancingResult, VaultError>)
    ensures
        confidential_tvl(*input) > u64::MAX ==> r == Err::<RebalancingResult, VaultError>(
            VaultError::MathOverflow,
        ),
        0 < confidential_tvl(*input) <= u64::MAX ==> r == Ok::<RebalancingResult, VaultError>(
            RebalancingResult {
                needs_rebalance: confidential_decision(*input),
                btc_drift: (input.btc_current - input.btc_weight) as i16,
                eth_drift: (input.eth_current - input.eth_weight) as i16,
                sol_drift: (input.sol_current - input.sol_weight) as i16,
                total_tvl: confidential_tvl(*input) as u64,
            },
        ),
        confidential_tvl(*input) == 0 ==> r == Ok::<RebalancingResult, VaultError>(
            RebalancingResult {
                needs_rebalance: false,
                btc_drift: 0,
                eth_drift: 0,
                sol_drift: 0,
                total_tvl: 0,
            },
        ),
{
    let btc_value = position_value(input.btc_balance, input.btc_price);
    let eth_value = position_value(input.eth_balance, input.eth_price);
    let sol_value = position_value(input.sol_balance, input.sol_price);
    if btc_value > u64::MAX as u128 || eth_value > u64::MAX as u128 || sol_value > u64::MAX as u128 {
        return Err(VaultError::MathOverflow);
    }
    let total = btc_value + eth_value + sol_value;
    if total > u64::MAX as u128 {
        return Err(VaultError::MathOverflow);
    }
    if total == 0 {
        return Ok(
            RebalancingResult { needs_rebalance: false, btc_drift: 0, eth_drift: 0, sol_drift: 0, total_tvl: 0 },
        );
    }
    let btc_drift = input.btc_current as i16 - input.btc_weight as i16;
    let eth_drift = input.eth_current as i16 - input.eth_weight as i16;
    let sol_drift = input.sol_current as i16 - input.sol_weight as i16;
    let threshold = input.threshold as i16;
    let btc_exceeds = btc_drift > threshold || -btc_drift > threshold;
    let eth_exceeds = eth_drift > threshold || -eth_drift > threshold;
    let sol_exceeds = sol_drift > threshold || -sol_drift > threshold;
    Ok(
        RebalancingResult {
            needs_rebalance: btc_exceeds || eth_exceeds || sol_exceeds,
            btc_drift,
            eth_drift,
            sol_drift,
            total_tvl: total as u64,
        },
    )
}

/// The confidential path decides as the plaintext path does: for a
/// three-asset pool whose drift can be measured, an input that is empty
/// exactly when the pool is, and that carries the plaintext report's current
/// weights, the target weights and the same threshold, needs a rebalance
/// exactly when the report does. In particular neither path rebalances an
/// empty pool.
pub proof fn lemma_confidential_matches_plaintext(
    balances: Seq<u64>,
    prices: Seq<NormalizedPrice>,
    weights: Seq<u8>,
    decimals: Seq<u8>,
    input: RebalancingInput,
)
    requires
        balances.len() == 3,
        prices.len() == 3,
        weights.len() == 3,
        decimals.len() == 3,
        all_tradable(prices),
        drift_defined(balances, prices, weights, decimals, input.threshold as int),
        (confidential_tvl(input) == 0) == (holdings_usd(balances, prices, decimals, 3) == 0),
        input.btc_weight == weights[0],
        input.eth_weight == weights[1],
        input.sol_weight == weights[2],
        input.btc_current == drift_entries(balances, prices, weights, decimals, input.threshold as int)[0].current_weight,
        input.eth_current == drift_entries(balances, prices, weights, decimals, input.threshold as int)[1].current_weight,
        input.sol_current == drift_entries(balances, prices, weights, decimals, input.threshold as int)[2].current_weight,
    ensures
        confidential_decision(input) == any_exceeds(
            drift_entries(balances, prices, weights, decimals, input.threshold as int),
        ),
{
    let entries = drift_entries(balances, prices, weights, decimals, input.threshold as int);
    let total = holdings_usd(balances, prices, decimals, 3);
    assert(drift_entries(balances, prices, weights, decimals, input.threshold as int).len() == 3);
    if total == 0 {
        assert forall|i: int| 0 <= i < 3 implies !(#[trigger] entries[i]).exceeds_threshold by {}
        return;
    }
    assert forall|i: int| 0 <= i < 3 implies (#[trigger] entries[i]).exceeds_threshold == exceeds(
        entries[i].current_weight - weights[i],
        input.threshold as int,
    ) by {
        let value = crate::rebalance::asset_value(balances, prices, decimals, i);
        assert(prices[i].is_tradable());
        lemma_holding_nonneg(prices[i].price_usd as int, balances[i] as int, decimals[i] as nat);
        lemma_holdings_monotone(balances, prices, decimals, 0, 3);
        assert(0 <= value * 100 / total <= value * 100) by (nonlinear_arith)
            requires
                value >= 0,
                total > 0,
        ;
        assert(crate::rebalance::drift_entry(
            crate::rebalance::asset_value(balances, prices, decimals, i),
            total,
            weights[i],
            input.threshold as int,
        ) is Some);
    }
    if confidential_decision(input) {
        if exceeds(input.btc_current - input.btc_weight, input.threshold as int) {
            assert(entries[0].exceeds_threshold);
        } else if exceeds(input.eth_current - input.eth_weight, input.threshold as int) {
            assert(entries[1].exceeds_threshold);
        } else {
            assert(entries[2].exceeds_threshold);
        }
    }
}

/// Leading bytes that select the confidential rebalancing computation.
pub open spec fn compute_rebalancing_discriminator() -> Seq<u8> {
    seq![126u8, 197u8, 44u8, 141u8, 35u8, 123u8, 172u8, 126u8]
}

/// Instruction data that queues the confidential rebalancing computation:
/// the selector, the computation offset (eight bytes), the caller's public
/// key, the nonce (sixteen bytes) and the encrypted input, integers little-endian.
pub open spec fn confidential_instruction(
    computation_offset: u64,
    pub_key: Seq<u8>,
    nonce: u128,
    encrypted_user_funds: Seq<u8>,
) -> Seq<u8> {
    compute_rebalancing_discriminator() + le_bytes(computation_offset as nat, 8) + pub_key + le_bytes(
        nonce as nat,
        16,
    ) + encrypted_user_funds
}

/// Builds the instruction that queues a confidential rebalancing of the
/// vault. Only the admin may (`Unauthorized`); the vault must read prices
/// from a mock oracle it names (`InvalidPrice` otherwise).
pub fn rebalance_confidential(
    vault: &Vault,
    authority: &Pubkey,
    computation_offset: u64,
    pub_key: &[u8; 32],
    nonce: u128,
    encrypted_user_funds: &[u8; 32],
) -> (r: Result<Vec<u8>, VaultError>)
    ensures
        authority@ != vault.admin@ ==> r == Err::<Vec<u8>, VaultError>(VaultError::Unauthorized),
        authority@ == vault.admin@ && (vault.price_source != PriceSource::MockOracle
            || vault.mock_oracle is None) ==> r == Err::<Vec<u8>, VaultError>(VaultError::InvalidPrice),
        authority@ == vault.admin@ && vault.price_source == PriceSource::MockOracle
            && vault.mock_oracle is Some ==> (r matches Ok(data) && data@ == confidential_instruction(
            computation_offset,
            pub_key@,
            nonce,
            encrypted_user_funds@,
        )),
        r matches Ok(data) ==> data@.len() == 96,
{
    if *authority != vault.admin {
        return Err(VaultError::Unauthorized);
    }
    if vault.price_source != PriceSource::MockOracle || vault.mock_oracle.is_none() {
        return Err(VaultError::InvalidPrice);
    }
    let mut data: Vec<u8> = vec![126u8, 197u8, 44u8, 141u8, 35u8, 123u8, 172u8, 126u8];
    assert(data@ =~= compute_rebalancing_discriminator());
    push_le(&mut data, computation_offset as u128, 8);
    push_all(&mut data, pub_key.as_slice());
    push_le(&mut data, nonce, 16);
    push_all(&mut data, encrypted_user_funds.as_slice());
    proof {
        crate::bytes::lemma_le_bytes_len(computation_offset as nat, 8);
        crate::bytes::lemma_le_bytes_len(nonce as nat, 16);
    }
    Ok(data)
}

} // verus!
