//! Error kinds of the engine and of the strategy ledger.

use vstd::prelude::*;

verus! {

/// Why an operation of the vault engine failed. Every failure is local,
/// synchronous and leaves the vault state untouched.
#[derive(Debug, Clone, Copy, PartialEq, Eq, Structural)]
pub enum VaultError {
    InvalidAmount,
    InsufficientShares,
    InsufficientAssets,
    MathOverflow,
    InvalidUnderlyingAsset,
    Unauthorized,
    InvalidQuote,
    InvalidQuoteSignature,
    StaleQuote,
    InvalidPrice,
    InvalidWeights,
    InvalidName,
    InvalidMint,
    InvalidATA,
    InvalidAssetCount,
    InvalidRemainingAccounts,
    SwapFailed,
    MarinadeError,
    AssetNotFound,
    InsufficientBalance,
}

/// Why an operation on a strategy's ledger failed.
#[derive(Debug, Clone, Copy, PartialEq, Eq, Structural)]
pub enum StrategyError {
    UnauthorizedVault,
    Paused,
    ZeroAmount,
    InsufficientBalance,
    InvalidAccounts,
    MathError,
}

impl VaultError {
    /// The human-readable message of this error.
    pub fn message(&self) -> String {
        let m = match self {
            VaultError::InvalidAmount => "Invalid amount: must be greater than 0",
            VaultError::InsufficientShares => "Insufficient shares for withdrawal",
            VaultError::InsufficientAssets => "Insufficient assets in vault",
            VaultError::MathOverflow => "Math overflow occurred",
            VaultError::InvalidUnderlyingAsset => "Invalid underlying asset",
            VaultError::Unauthorized => "Unauthorized: only vault authority can perform this action",
            VaultError::InvalidQuote => "Invalid Oracle Quote",
            VaultError::InvalidQuoteSignature => "Invalid Quote Signature",
            VaultError::StaleQuote => "Stale Quote",
            VaultError::InvalidPrice => "Invalid Price",
            VaultError::InvalidWeights => "Sum of asset weights must equal 100",
            VaultError::InvalidName => "Vault name must be 1-32 characters",
            VaultError::InvalidMint => "Invalid asset mint provided",
            VaultError::InvalidATA => "Invalid ATA address for asset",
            VaultError::InvalidAssetCount => "Asset count must be 1-10",
            VaultError::InvalidRemainingAccounts => "Incorrect number of remaining accounts",
            VaultError::SwapFailed => "Swap failed",
            VaultError::MarinadeError => "Strategy stake/unstake failed",
            VaultError::AssetNotFound => "Asset not found in vault composition",
            VaultError::InsufficientBalance => "Insufficient balance for rebalance",
        };
        m.to_string()
    }
}

} // verus!
