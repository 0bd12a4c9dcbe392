use vstd::prelude::*;

verus! {

/// Failures reported by the ledger. A call that returns one of these leaves
/// the ledger exactly as it was.
#[derive(Copy, Clone, Debug, PartialEq, Eq, Structural, PartialOrd, Ord)]
pub enum Error {
    AlreadyInitialized,
    AdminNotFound,
    AssetAlreadyExists,
    AssetNotFound,
    BranchAlreadyExists,
    BranchNotFound,
    SubscriptionAlreadyExists,
    Unauthorized,
    InvalidPayment,
    AssetAlreadyTokenized,
    AssetNotTokenized,
    InvalidTokenSupply,
    InvalidTokenDecimals,
    InsufficientBalance,
    InsufficientLockedTokens,
    TokensAreLocked,
    TransferRestrictionFailed,
    NotWhitelisted,
    AccreditedInvestorRequired,
    GeographicRestriction,
    InsufficientVotingPower,
    AlreadyVoted,
    ProposalNotFound,
    InvalidProposal,
    VotingPeriodEnded,
    NoDividendsToClaim,
    InvalidDividendAmount,
    DetokenizationNotApproved,
    DetokenizationAlreadyProposed,
    InvalidValuation,
    HolderNotFound,
    MathOverflow,
    MathUnderflow,
    ContractPaused,
    ContractNotInitialized,
    InvalidAssetName,
    InvalidPurchaseValue,
    InvalidMetadataUri,
    InvalidOwnerAddress,
    LeaseNotFound,
    LeaseAlreadyExists,
    AssetAlreadyLeased,
    InvalidLeaseStatus,
    LeaseAlreadyStarted,
    LeaseNotExpired,
    InvalidTimestamps,
}

/// Returns `Err(AssetAlreadyExists)` exactly when the asset already exists.
pub fn dummy_function(asset_exists: bool) -> (r: Result<(), Error>)
    ensures
        asset_exists <==> r == Err::<(), Error>(Error::AssetAlreadyExists),
        !asset_exists <==> r is Ok,
{
    if asset_exists {
        Err(Error::AssetAlreadyExists)
    } else {
        Ok(())
    }
}

} // verus!
