use vstd::prelude::*;

use crate::holdings::AccountId;

verus! {

/// The largest number of decimal places a token may declare.
pub const MAX_DECIMALS: u32 = 18;

/// One hundred percent, in basis points.
pub const BASIS_POINTS: i128 = 10000;

#[derive(Copy, Clone, Debug, PartialEq, Eq, Structural)]
pub enum AssetType {
    Physical,
    Digital,
    Financial,
    RealEstate,
    Other,
}

/// Descriptive data attached to a tokenized asset.
pub struct TokenMetadata {
    pub name: String,
    pub description: String,
    pub asset_type: AssetType,
    pub ipfs_uri: Option<String>,
    pub legal_docs_hash: Option<[u8; 32]>,
    pub valuation_report_hash: Option<[u8; 32]>,
    pub accredited_investor_required: bool,
    /// Region codes the asset may be held in.
    pub geographic_restrictions: Vec<u32>,
}

/// The registry entry of a tokenized asset.
pub struct TokenizedAsset {
    pub asset_id: u64,
    pub symbol: String,
    pub total_supply: i128,
    pub decimals: u32,
    pub tokenizer: AccountId,
    /// The affirmative weight a proposal needs to pass.
    pub min_voting_threshold: i128,
    pub valuation: i128,
    pub metadata: TokenMetadata,
    /// Set once a detokenization has been executed; the asset is then frozen.
    pub detokenized: bool,
}

/// The transfer policy of an asset.
pub struct TransferRestriction {
    pub require_accredited: bool,
    /// Region codes that transfers are allowed into.
    pub geographic_allowed: Vec<u32>,
}

/// A proposal to end an asset's tokenized state.
#[derive(Copy, Clone, Debug, PartialEq, Eq, Structural)]
pub struct DetokenizationProposal {
    pub proposal_id: u64,
    pub proposer: AccountId,
    pub created_at: u64,
    pub executed: bool,
}

pub fn copy_codes(v: &Vec<u32>) -> (r: Vec<u32>)
    ensures
        r@ == v@,
{
    let mut r: Vec<u32> = Vec::new();
    let mut i: usize = 0;
    while i < v.len()
        invariant
            i <= v@.len(),
            r@ == v@.take(i as int),
        decreases v@.len() - i,
    {
        r.push(v[i]);
        i += 1;
        assert(r@ =~= v@.take(i as int));
    }
    assert(v@.take(i as int) =~= v@);
    r
}

fn copy_text(s: &Option<String>) -> (r: Option<String>)
    ensures
        r == *s,
{
    match s {
        Some(t) => Some(t.clone()),
        None => None,
    }
}

impl TokenMetadata {
    /// Equal field by field, the region list by its contents.
    pub open spec fn same_as(&self, o: &TokenMetadata) -> bool {
        &&& self.name == o.name
        &&& self.description == o.description
        &&& self.asset_type == o.asset_type
        &&& self.ipfs_uri == o.ipfs_uri
        &&& self.legal_docs_hash == o.legal_docs_hash
        &&& self.valuation_report_hash == o.valuation_report_hash
        &&& self.accredited_investor_required == o.accredited_investor_required
        &&& self.geographic_restrictions@ == o.geographic_restrictions@
    }

    pub fn copy(&self) -> (r: TokenMetadata)
        ensures
            r.same_as(self),
    {
        let r = TokenMetadata {
            name: self.name.clone(),
            description: self.description.clone(),
            asset_type: self.asset_type,
            ipfs_uri: copy_text(&self.ipfs_uri),
            legal_docs_hash: self.legal_docs_hash,
            valuation_report_hash: self.valuation_report_hash,
            accredited_investor_required: self.accredited_investor_required,
            geographic_restrictions: copy_codes(&self.geographic_restrictions),
        };
        r
    }
}

impl TokenizedAsset {
    /// Equal field by field, the metadata by `TokenMetadata::same_as`.
    pub open spec fn same_as(&self, o: &TokenizedAsset) -> bool {
        &&& self.asset_id == o.asset_id
        &&& self.symbol == o.symbol
        &&& self.total_supply == o.total_supply
        &&& self.decimals == o.decimals
        &&& self.tokenizer == o.tokenizer
        &&& self.min_voting_threshold == o.min_voting_threshold
        &&& self.valuation == o.valuation
        &&& self.metadata.same_as(&o.metadata)
        &&& self.detokenized == o.detokenized
    }

    pub fn copy(&self) -> (r: TokenizedAsset)
        ensures
            r.same_as(self),
    {
        TokenizedAsset {
            asset_id: self.asset_id,
            symbol: self.symbol.clone(),
            total_supply: self.total_supply,
            decimals: self.decimals,
            tokenizer: self.tokenizer,
            min_voting_threshold: self.min_voting_threshold,
            valuation: self.valuation,
            metadata: self.metadata.copy(),
            detokenized: self.detokenized,
        }
    }
}

impl TransferRestriction {
    /// Equal field by field, the region list by its contents.
    pub open spec fn same_as(&self, o: &TransferRestriction) -> bool {
        &&& self.require_accredited == o.require_accredited
        &&& self.geographic_allowed@ == o.geographic_allowed@
    }

    pub fn copy(&self) -> (r: TransferRestriction)
        ensures
            r.same_as(self),
    {
        let r = TransferRestriction {
            require_accredited: self.require_accredited,
            geographic_allowed: copy_codes(&self.geographic_allowed),
        };
        r
    }
}

} // verus!
