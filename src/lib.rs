//! A ledger of fractional ownership of real-world assets: token issuance,
//! balances and holders, time locks, transfer restrictions, dividends,
//! weighted voting and vote-gated detokenization.

use vstd::prelude::*;

pub mod error;
pub mod guarantees;
pub mod holdings;
pub mod insurance;
pub mod lease;
pub mod ledger;
pub mod pair_map;
pub mod registry;
pub mod transfer_restrictions;
pub mod types;

pub use error::{dummy_function, Error};
pub use holdings::{AccountId, Holding};
pub use ledger::{AssetUpContract, LedgerView};
pub use transfer_restrictions::TransferRules;
pub use types::{
    AssetType, DetokenizationProposal, TokenMetadata, TokenizedAsset, TransferRestriction,
};

verus! {

} // verus!
