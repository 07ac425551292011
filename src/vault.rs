//! Vault composition: the basket of assets with target weights, its
//! validation, and the administrative updates of a vault and its mock oracle.

use vstd::prelude::*;
use crate::error::VaultError;

verus! {

/// Largest number of assets in one vault.
pub const MAX_ASSETS: usize = 10;

/// Largest vault name, in bytes.
pub const MAX_NAME_LEN: usize = 32;

/// The weights of a valid composition add up to this.
pub const TOTAL_WEIGHT: u64 = 100;

/// Quotes older than this many seconds are refused.
pub const MAX_QUOTE_AGE_SECS: u64 = 120;

/// Largest price, in micro-dollars, that the mock oracle accepts (exclusive).
pub const MAX_MOCK_PRICE: i64 = 10_000_000_000_000;

/// A 32-byte account address.
#[derive(Clone, Copy, Debug)]
pub struct Pubkey {
    pub bytes: [u8; 32],
}

impl View for Pubkey {
    type V = Seq<u8>;

    open spec fn view(&self) -> Seq<u8> {
        self.bytes@
    }
}

impl PartialEq for Pubkey {
    fn eq(&self, other: &Pubkey) -> (r: bool)
        ensures
            r == (self@ == other@),
    {
        let mut i: usize = 0;
        while i < 32
            invariant
                i <= 32,
                forall|j: int| 0 <= j < i ==> self.bytes@[j] == other.bytes@[j],
            decreases 32 - i,
        {
            if self.bytes[i] != other.bytes[i] {
                return false;
            }
            i = i + 1;
        }
        assert(self.bytes@ =~= other.bytes@);
        true
    }
}

impl Default for Pubkey {
    /// The all-zero address.
    fn default() -> (r: Pubkey)
        ensures
            r@ == Seq::new(32, |i: int| 0u8),
    {
        let r = Pubkey { bytes: [0u8; 32] };
        assert(r@ =~= Seq::new(32, |i: int| 0u8));
        r
    }
}

impl vstd::std_specs::cmp::PartialEqSpecImpl for Pubkey {
    open spec fn obeys_eq_spec() -> bool {
        true
    }

    open spec fn eq_spec(&self, other: &Pubkey) -> bool {
        self@ == other@
    }
}

impl Pubkey {
    pub fn new(bytes: [u8; 32]) -> (r: Pubkey)
        ensures
            r.bytes == bytes,
    {
        Pubkey { bytes }
    }
}

/// How a vault holds an asset.
#[derive(Clone, Copy, Debug, PartialEq, Eq, Structural)]
pub enum AssetRole {
    /// The deposit is converted into the asset and held in the vault.
    Held,
    /// The deposit's share of this asset is delegated to the yield strategy.
    Delegated,
}

/// One asset of a vault's basket.
#[derive(Clone, Copy, Debug)]
pub struct AssetConfig {
    /// The asset's mint.
    pub mint: Pubkey,
    /// Target weight, in percent.
    pub weight: u8,
    /// The vault's token account for this asset.
    pub ata: Pubkey,
    /// Decimal places of the asset's native unit.
    pub decimals: u8,
    /// How the vault holds the asset.
    pub role: AssetRole,
}

/// Where a vault reads its prices.
#[derive(Clone, Copy, Debug, PartialEq, Eq, Structural)]
pub enum PriceSource {
    Switchboard,
    MockOracle,
}

/// Sum of the target weights of `assets`.
pub open spec fn weight_sum(assets: Seq<AssetConfig>) -> int
    decreases assets.len(),
{
    if assets.len() == 0 {
        0
    } else {
        weight_sum(assets.drop_last()) + assets.last().weight
    }
}

/// Target weights are all positive and add up to exactly 100.
pub open spec fn weights_valid(assets: Seq<AssetConfig>) -> bool {
    &&& weight_sum(assets) == 100
    &&& forall|i: int| 0 <= i < assets.len() ==> #[trigger] assets[i].weight > 0
}

/// A basket of one to ten assets whose weights are valid.
pub open spec fn composition_valid(assets: Seq<AssetConfig>) -> bool {
    &&& 1 <= assets.len() <= MAX_ASSETS
    &&& weights_valid(assets)
}

/// Length in bytes of a name (a `String`'s length always fits in `usize`).
pub open spec fn name_len(name: Seq<char>) -> usize {
    vstd::utf8::encode_utf8(name).len() as usize
}

/// A vault name has one to thirty-two bytes.
pub open spec fn name_valid(name: Seq<char>) -> bool {
    1 <= name_len(name) <= MAX_NAME_LEN
}

/// The error that creating a vault with this name and basket gives, if any.
pub open spec fn creation_error(name: Seq<char>, assets: Seq<AssetConfig>) -> Option<VaultError> {
    if !name_valid(name) {
        Some(VaultError::InvalidName)
    } else if !(1 <= assets.len() <= MAX_ASSETS) {
        Some(VaultError::InvalidAssetCount)
    } else if !weights_valid(assets) {
        Some(VaultError::InvalidWeights)
    } else {
        None
    }
}

/// In a basket whose weights are all non-negative, no single weight exceeds their sum.
pub proof fn lemma_weight_le_sum(assets: Seq<AssetConfig>, i: int)
    requires
        0 <= i < assets.len(),
    ensures
        assets[i].weight <= weight_sum(assets),
    decreases assets.len(),
{
    lemma_weight_sum_nonneg(assets.drop_last());
    if i < assets.len() - 1 {
        lemma_weight_le_sum(assets.drop_last(), i);
    }
}

/// A prefix sum of weights never exceeds the whole sum.
pub proof fn lemma_weight_sum_prefix(assets: Seq<AssetConfig>, k: int)
    requires
        0 <= k <= assets.len(),
    ensures
        0 <= weight_sum(assets.subrange(0, k)) <= weight_sum(assets),
    decreases assets.len() - k,
{
    if k < assets.len() {
        lemma_weight_sum_prefix(assets, k + 1);
        assert(assets.subrange(0, k + 1).drop_last() =~= assets.subrange(0, k));
    } else {
        assert(assets.subrange(0, k) =~= assets);
    }
    lemma_weight_sum_nonneg(assets.subrange(0, k));
}

pub proof fn lemma_weight_sum_nonneg(assets: Seq<AssetConfig>)
    ensures
        weight_sum(assets) >= 0,
    decreases assets.len(),
{
    if assets.len() > 0 {
        lemma_weight_sum_nonneg(assets.drop_last());
    }
}

/// Whether all target weights are positive and add up to exactly 100.
pub fn check_weights(assets: &Vec<AssetConfig>) -> (r: bool)
    ensures
        r == weights_valid(assets@),
{
    let mut total: u64 = 0;
    let mut all_positive = true;
    let mut i: usize = 0;
    while i < assets.len()
        invariant
            i <= assets@.len(),
            total == weight_sum(assets@.subrange(0, i as int)),
            total <= 100,
            all_positive == forall|j: int| 0 <= j < i ==> #[trigger] assets@[j].weight > 0,
        decreases assets@.len() - i,
    {
        assert(assets@.subrange(0, i + 1).drop_last() =~= assets@.subrange(0, i as int));
        total = total + assets[i].weight as u64;
        if assets[i].weight == 0 {
            all_positive = false;
        }
        i = i + 1;
        if total > 100 {
            proof {
                lemma_weight_sum_prefix(assets@, i as int);
            }
            return false;
        }
    }
    assert(assets@.subrange(0, i as int) =~= assets@);
    total == 100 && all_positive
}

/// A multi-asset vault: its identity, basket composition and settings.
pub struct Vault {
    pub bump: u8,
    /// Authority that manages the vault.
    pub admin: Pubkey,
    /// Human-readable name, unique per admin.
    pub name: String,
    /// Mint of the vault's shares.
    pub vault_token_mint: Pubkey,
    /// The basket, in order.
    pub assets: Vec<AssetConfig>,
    /// The yield strategy the vault delegates to, if any.
    pub marinade_strategy: Option<Pubkey>,
    pub price_source: PriceSource,
    pub mock_oracle: Option<Pubkey>,
}

impl Vault {
    /// A vault has a valid name and a valid composition.
    pub open spec fn wf(&self) -> bool {
        &&& name_valid(self.name@)
        &&& composition_valid(self.assets@)
    }

    /// Bytes of storage that a vault with a name of `name_len` bytes and
    /// `num_assets` assets takes.
    pub fn space(name_len: usize, num_assets: usize) -> (r: usize)
        requires
            8 + 1 + 32 + 4 + name_len + 32 + 4 + num_assets * 65 + 1 + 32 <= usize::MAX,
        ensures
            r == 8 + 1 + 32 + 4 + name_len + 32 + 4 + num_assets * 65 + 1 + 32,
    {
        8 + 1 + 32 + 4 + name_len + 32 + 4 + num_assets * (32 + 1 + 32) + 1 + 32
    }

    /// `Ok` exactly when the target weights are all positive and add up to 100.
    pub fn validate_weights(&self) -> (r: Result<(), VaultError>)
        ensures
            weights_valid(self.assets@) ==> r is Ok,
            !weights_valid(self.assets@) ==> r == Err::<(), VaultError>(VaultError::InvalidWeights),
    {
        if check_weights(&self.assets) {
            Ok(())
        } else {
            Err(VaultError::InvalidWeights)
        }
    }

    /// The first asset of the basket with this mint.
    pub fn get_asset_by_mint(&self, mint: &Pubkey) -> (r: Option<&AssetConfig>)
        ensures
            match r {
                Some(a) => exists|i: int|
                    0 <= i < self.assets@.len() && self.assets@[i].mint@ == mint@ && *a
                        == self.assets@[i] && forall|j: int|
                        0 <= j < i ==> #[trigger] self.assets@[j].mint@ != mint@,
                None => forall|i: int|
                    0 <= i < self.assets@.len() ==> #[trigger] self.assets@[i].mint@ != mint@,
            },
    {
        let mut i: usize = 0;
        while i < self.assets.len()
            invariant
                i <= self.assets@.len(),
                forall|j: int| 0 <= j < i ==> #[trigger] self.assets@[j].mint@ != mint@,
            decreases self.assets@.len() - i,
        {
            if self.assets[i].mint == *mint {
                return Some(&self.assets[i]);
            }
            i = i + 1;
        }
        None
    }
}

/// Target weights of a basket, in order.
pub open spec fn weights_of(assets: Seq<AssetConfig>) -> Seq<u8> {
    assets.map_values(|a: AssetConfig| a.weight)
}

/// Decimals of a basket's assets, in order.
pub open spec fn decimals_of(assets: Seq<AssetConfig>) -> Seq<u8> {
    assets.map_values(|a: AssetConfig| a.decimals)
}

/// Target weights and decimals of the vault's basket.
pub fn basket_parameters(vault: &Vault) -> (r: (Vec<u8>, Vec<u8>))
    ensures
        r.0@ == weights_of(vault.assets@),
        r.1@ == decimals_of(vault.assets@),
{
    let mut weights: Vec<u8> = Vec::new();
    let mut decimals: Vec<u8> = Vec::new();
    let mut i: usize = 0;
    while i < vault.assets.len()
        invariant
            i <= vault.assets@.len(),
            weights@.len() == i,
            decimals@.len() == i,
            forall|j: int| 0 <= j < i ==> #[trigger] weights@[j] == vault.assets@[j].weight,
            forall|j: int| 0 <= j < i ==> #[trigger] decimals@[j] == vault.assets@[j].decimals,
        decreases vault.assets@.len() - i,
    {
        weights.push(vault.assets[i].weight);
        decimals.push(vault.assets[i].decimals);
        i = i + 1;
    }
    assert(weights@ =~= weights_of(vault.assets@));
    assert(decimals@ =~= decimals_of(vault.assets@));
    (weights, decimals)
}

/// Creates a vault after checking, in this order, its name (`InvalidName`),
/// the number of assets (`InvalidAssetCount`) and the weights
/// (`InvalidWeights`). A new vault uses Switchboard prices and no strategy.
pub fn create_vault(
    bump: u8,
    admin: Pubkey,
    name: String,
    vault_token_mint: Pubkey,
    assets: Vec<AssetConfig>,
) -> (r: Result<Vault, VaultError>)
    ensures
        match creation_error(name@, assets@) {
            Some(e) => r matches Err(x) && x == e,
            None => r is Ok,
        },
        r matches Ok(v) ==> {
            &&& v.wf()
            &&& v.bump == bump
            &&& v.admin == admin
            &&& v.name@ == name@
            &&& v.vault_token_mint == vault_token_mint
            &&& v.assets@ == assets@
            &&& v.marinade_strategy is None
            &&& v.price_source == PriceSource::Switchboard
            &&& v.mock_oracle is None
        },
{
    let len = name.as_str().len();
    if len == 0 || len > MAX_NAME_LEN {
        return Err(VaultError::InvalidName);
    }
    if assets.len() == 0 || assets.len() > MAX_ASSETS {
        return Err(VaultError::InvalidAssetCount);
    }
    if !check_weights(&assets) {
        return Err(VaultError::InvalidWeights);
    }
    Ok(
        Vault {
            bump,
            admin,
            name,
            vault_token_mint,
            assets,
            marinade_strategy: None,
            price_source: PriceSource::Switchboard,
            mock_oracle: None,
        },
    )
}

/// Every vault that creation accepts has one to ten assets whose target
/// weights are all positive and add up to exactly 100; any other basket is
/// refused.
pub proof fn lemma_created_composition_valid(name: Seq<char>, assets: Seq<AssetConfig>)
    ensures
        creation_error(name, assets) is None ==> {
            &&& 1 <= assets.len() <= 10
            &&& weight_sum(assets) == 100
            &&& forall|i: int| 0 <= i < assets.len() ==> #[trigger] assets[i].weight > 0
        },
        !composition_valid(assets) ==> creation_error(name, assets) is Some,
{
}

/// Chooses the vault's price source. Only the admin may; a mock oracle source
/// needs the oracle's address (`InvalidPrice` otherwise).
pub fn set_price_source(
    vault: &mut Vault,
    authority: &Pubkey,
    price_source: PriceSource,
    mock_oracle: Option<Pubkey>,
) -> (r: Result<(), VaultError>)
    ensures
        authority@ != old(vault).admin@ ==> r == Err::<(), VaultError>(VaultError::Unauthorized)
            && *final(vault) == *old(vault),
        authority@ == old(vault).admin@ && price_source == PriceSource::MockOracle
            && mock_oracle is None ==> r == Err::<(), VaultError>(VaultError::InvalidPrice)
            && *final(vault) == *old(vault),
        authority@ == old(vault).admin@ && !(price_source == PriceSource::MockOracle
            && mock_oracle is None) ==> r is Ok && *final(vault) == (Vault {
            price_source,
            mock_oracle,
            ..*old(vault)
        }),
{
    if *authority != vault.admin {
        return Err(VaultError::Unauthorized);
    }
    if price_source == PriceSource::MockOracle && mock_oracle.is_none() {
        return Err(VaultError::InvalidPrice);
    }
    vault.price_source = price_source;
    vault.mock_oracle = mock_oracle;
    Ok(())
}

/// Sets the yield strategy the vault delegates to. Only the admin may.
pub fn set_strategy(vault: &mut Vault, authority: &Pubkey, strategy: Pubkey) -> (r: Result<
    (),
    VaultError,
>)
    ensures
        authority@ != old(vault).admin@ ==> r == Err::<(), VaultError>(VaultError::Unauthorized)
            && *final(vault) == *old(vault),
        authority@ == old(vault).admin@ ==> r is Ok && *final(vault) == (Vault {
            marinade_strategy: Some(strategy),
            ..*old(vault)
        }),
{
    if *authority != vault.admin {
        return Err(VaultError::Unauthorized);
    }
    vault.marinade_strategy = Some(strategy);
    Ok(())
}

/// Removes the vault's yield strategy. Only the admin may.
pub fn remove_strategy(vault: &mut Vault, authority: &Pubkey) -> (r: Result<(), VaultError>)
    ensures
        authority@ != old(vault).admin@ ==> r == Err::<(), VaultError>(VaultError::Unauthorized)
            && *final(vault) == *old(vault),
        authority@ == old(vault).admin@ ==> r is Ok && *final(vault) == (Vault {
            marinade_strategy: None,
            ..*old(vault)
        }),
{
    if *authority != vault.admin {
        return Err(VaultError::Unauthorized);
    }
    vault.marinade_strategy = None;
    Ok(())
}

} // verus!
