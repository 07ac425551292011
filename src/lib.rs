//! Accounting and rebalancing engine of a multi-asset pooled vault: price
//! normalisation, valuation, share issuance and redemption, drift-based
//! rebalancing and the ledger of a delegated yield strategy.

pub mod math;
pub mod bytes;
pub mod error;
pub mod price;
pub mod swap;
pub mod vault;
pub mod valuation;
pub mod rebalance;
pub mod issuance;
pub mod strategy;
pub mod confidential;
pub mod oracle;
