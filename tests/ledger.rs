use assetsup::{AccountId, AssetType, AssetUpContract, Error, TokenMetadata, TransferRestriction};
use assetsup::transfer_restrictions;

const A: AccountId = 10;
const B: AccountId = 20;
const C: AccountId = 30;

fn ledger_with(asset_id: u64, supply: i128, threshold: i128, tokenizer: AccountId) -> AssetUpContract {
    let mut ledger = AssetUpContract::new();
    ledger
        .tokenize_asset(
            asset_id,
            String::from("TKN"),
            supply,
            2,
            threshold,
            tokenizer,
            String::from("Tower"),
            String::from("An office tower"),
            AssetType::RealEstate,
        )
        .unwrap();
    ledger
}

fn holder_sum(ledger: &AssetUpContract, asset_id: u64) -> i128 {
    let holders = ledger.get_token_holders(asset_id).unwrap();
    holders.iter().map(|h| ledger.get_token_balance(asset_id, *h).unwrap()).sum()
}

#[test]
fn tokenize_credits_whole_supply_to_tokenizer() {
    let ledger = ledger_with(1, 1000, 500, A);
    assert_eq!(ledger.get_token_balance(1, A), Ok(1000));
    assert_eq!(ledger.get_token_holders(1).unwrap(), vec![A]);
    assert_eq!(ledger.get_ownership_percentage(1, A), Ok(10000));
    let t = ledger.get_tokenized_asset(1).unwrap();
    assert_eq!(t.total_supply, 1000);
    assert_eq!(t.decimals, 2);
    assert_eq!(t.tokenizer, A);
    assert_eq!(t.symbol, "TKN");
    assert_eq!(t.metadata.name, "Tower");
    assert_eq!(t.metadata.asset_type, AssetType::RealEstate);
    assert!(!t.detokenized);
}

#[test]
fn ownership_after_transfer_of_a_quarter() {
    let mut ledger = ledger_with(1, 1000, 500, A);
    ledger.transfer_tokens(1, A, B, 250, 0).unwrap();
    assert_eq!(ledger.get_ownership_percentage(1, B), Ok(2500));
    assert_eq!(ledger.get_ownership_percentage(1, A), Ok(7500));
    assert_eq!(ledger.get_ownership_percentage(1, C), Ok(0));
}

#[test]
fn ownership_rounds_down() {
    let mut ledger = ledger_with(1, 3, 0, A);
    ledger.transfer_tokens(1, A, B, 1, 0).unwrap();
    assert_eq!(ledger.get_ownership_percentage(1, B), Ok(3333));
    assert_eq!(ledger.get_ownership_percentage(1, A), Ok(6666));
}

#[test]
fn ownership_of_unknown_asset_fails() {
    let ledger = ledger_with(1, 1000, 500, A);
    assert_eq!(ledger.get_ownership_percentage(2, A), Err(Error::AssetNotTokenized));
}

#[test]
fn ownership_overflow_is_reported() {
    let ledger = ledger_with(1, i128::MAX / 100, 0, A);
    assert_eq!(ledger.get_ownership_percentage(1, A), Err(Error::MathOverflow));
}

#[test]
fn tokenize_twice_fails() {
    let mut ledger = ledger_with(1, 1000, 500, A);
    let r = ledger.tokenize_asset(1, String::from("X"), 5, 2, 0, B, String::new(), String::new(), AssetType::Other);
    assert_eq!(r.err(), Some(Error::AssetAlreadyTokenized));
    assert_eq!(ledger.get_token_balance(1, A), Ok(1000));
    assert_eq!(ledger.get_token_balance(1, B), Ok(0));
}

#[test]
fn tokenize_rejects_non_positive_supply() {
    let mut ledger = AssetUpContract::new();
    for supply in [0i128, -5] {
        let r = ledger.tokenize_asset(1, String::from("X"), supply, 2, 0, A, String::new(), String::new(), AssetType::Other);
        assert_eq!(r.err(), Some(Error::InvalidTokenSupply));
    }
    assert_eq!(ledger.get_token_balance(1, A), Err(Error::AssetNotTokenized));
}

#[test]
fn tokenize_decimals_bound() {
    let mut ledger = AssetUpContract::new();
    let r = ledger.tokenize_asset(1, String::from("X"), 10, 19, 0, A, String::new(), String::new(), AssetType::Other);
    assert_eq!(r.err(), Some(Error::InvalidTokenDecimals));
    let r = ledger.tokenize_asset(1, String::from("X"), 10, 18, 0, A, String::new(), String::new(), AssetType::Other);
    assert!(r.is_ok());
}

#[test]
fn tokenized_asset_copy_keeps_metadata() {
    let mut ledger = AssetUpContract::new();
    let metadata = TokenMetadata {
        name: String::from("Vineyard"),
        description: String::from("Twelve hectares"),
        asset_type: AssetType::Physical,
        ipfs_uri: Some(String::from("ipfs://QmVineyard")),
        legal_docs_hash: Some([7u8; 32]),
        valuation_report_hash: None,
        accredited_investor_required: true,
        geographic_restrictions: vec![250, 380],
    };
    ledger.tokenize_with_metadata(5, String::from("VIN"), 100, 0, 10, A, metadata).unwrap();
    let t = ledger.get_tokenized_asset(5).unwrap();
    assert_eq!(t.asset_id, 5);
    assert_eq!(t.metadata.ipfs_uri, Some(String::from("ipfs://QmVineyard")));
    assert_eq!(t.metadata.legal_docs_hash, Some([7u8; 32]));
    assert_eq!(t.metadata.geographic_restrictions, vec![250, 380]);
    assert!(t.metadata.accredited_investor_required);
    assert_eq!(ledger.get_tokenized_asset(6).err(), Some(Error::AssetNotTokenized));
}

#[test]
fn mint_by_tokenizer_grows_supply_and_balance() {
    let mut ledger = ledger_with(1, 1000, 500, A);
    let t = ledger.mint_tokens(1, 500, A).unwrap();
    assert_eq!(t.total_supply, 1500);
    assert_eq!(ledger.get_token_balance(1, A), Ok(1500));
    assert_eq!(ledger.get_tokenized_asset(1).unwrap().total_supply, 1500);
}

#[test]
fn mint_errors() {
    let mut ledger = ledger_with(1, 1000, 500, A);
    assert_eq!(ledger.mint_tokens(1, 5, B).err(), Some(Error::Unauthorized));
    assert_eq!(ledger.mint_tokens(1, 0, A).err(), Some(Error::InvalidTokenSupply));
    assert_eq!(ledger.mint_tokens(2, 5, A).err(), Some(Error::AssetNotTokenized));
    assert_eq!(ledger.mint_tokens(1, i128::MAX - 999, A).err(), Some(Error::MathOverflow));
    assert_eq!(ledger.get_tokenized_asset(1).unwrap().total_supply, 1000);
    assert_eq!(ledger.mint_tokens(1, i128::MAX - 1000, A).unwrap().total_supply, i128::MAX);
}

#[test]
fn burn_waits_for_lock_to_expire() {
    let mut ledger = ledger_with(42, 1000, 500, A);
    ledger.lock_tokens(42, A, 100, A).unwrap();
    assert!(ledger.is_tokens_locked(42, A, 50));
    assert_eq!(ledger.burn_tokens(42, 100, A, 50).err(), Some(Error::TokensAreLocked));
    assert_eq!(ledger.get_tokenized_asset(42).unwrap().total_supply, 1000);
    assert!(!ledger.is_tokens_locked(42, A, 101));
    let t = ledger.burn_tokens(42, 100, A, 101).unwrap();
    assert_eq!(t.total_supply, 900);
    assert_eq!(ledger.get_tokenized_asset(42).unwrap().total_supply, 900);
    assert_eq!(ledger.get_token_balance(42, A), Ok(900));
}

#[test]
fn lock_expires_at_its_timestamp() {
    let mut ledger = ledger_with(1, 1000, 500, A);
    ledger.lock_tokens(1, B, 100, A).unwrap();
    assert!(ledger.is_tokens_locked(1, B, 99));
    assert!(!ledger.is_tokens_locked(1, B, 100));
    assert!(!ledger.is_tokens_locked(1, A, 0));
}

#[test]
fn lock_errors_and_unlock() {
    let mut ledger = ledger_with(1, 1000, 500, A);
    assert_eq!(ledger.lock_tokens(1, A, 100, B), Err(Error::Unauthorized));
    assert_eq!(ledger.lock_tokens(2, A, 100, A), Err(Error::AssetNotTokenized));
    ledger.lock_tokens(1, A, 100, A).unwrap();
    assert_eq!(ledger.transfer_tokens(1, A, B, 10, 5), Err(Error::TokensAreLocked));
    assert_eq!(ledger.unlock_tokens(1, A), Ok(()));
    assert!(!ledger.is_tokens_locked(1, A, 5));
    assert_eq!(ledger.transfer_tokens(1, A, B, 10, 5), Ok(()));
    assert_eq!(ledger.unlock_tokens(1, C), Ok(()));
}

#[test]
fn burn_errors() {
    let mut ledger = ledger_with(1, 1000, 500, A);
    ledger.transfer_tokens(1, A, B, 100, 0).unwrap();
    assert_eq!(ledger.burn_tokens(1, 10, B, 0).err(), Some(Error::Unauthorized));
    assert_eq!(ledger.burn_tokens(1, 901, A, 0).err(), Some(Error::InsufficientBalance));
    assert_eq!(ledger.burn_tokens(1, -1, A, 0).err(), Some(Error::InvalidTokenSupply));
    assert_eq!(ledger.burn_tokens(3, 1, A, 0).err(), Some(Error::AssetNotTokenized));
    assert_eq!(ledger.get_tokenized_asset(1).unwrap().total_supply, 1000);
}

#[test]
fn burning_everything_leaves_no_holders() {
    let mut ledger = ledger_with(1, 1000, 500, A);
    ledger.burn_tokens(1, 1000, A, 0).unwrap();
    assert_eq!(ledger.get_token_holders(1).unwrap(), Vec::<AccountId>::new());
    assert_eq!(ledger.get_ownership_percentage(1, A), Err(Error::AssetNotTokenized));
}

#[test]
fn full_balance_transfer_removes_sender() {
    let mut ledger = ledger_with(1, 1000, 500, A);
    ledger.transfer_tokens(1, A, B, 400, 0).unwrap();
    assert_eq!(ledger.transfer_tokens(1, B, C, 401, 0), Err(Error::InsufficientBalance));
    assert_eq!(ledger.transfer_tokens(1, B, C, 400, 0), Ok(()));
    assert_eq!(ledger.get_token_holders(1).unwrap(), vec![A, C]);
    assert_eq!(ledger.get_token_balance(1, B), Ok(0));
    assert_eq!(ledger.get_token_balance(1, C), Ok(400));
}

#[test]
fn transfer_errors_leave_balances_alone() {
    let mut ledger = ledger_with(1, 1000, 500, A);
    assert_eq!(ledger.transfer_tokens(1, A, B, 0, 0), Err(Error::InvalidTokenSupply));
    assert_eq!(ledger.transfer_tokens(1, A, B, 1001, 0), Err(Error::InsufficientBalance));
    assert_eq!(ledger.transfer_tokens(2, A, B, 1, 0), Err(Error::AssetNotTokenized));
    assert_eq!(ledger.get_token_balance(1, A), Ok(1000));
    assert_eq!(ledger.get_token_holders(1).unwrap(), vec![A]);
}

#[test]
fn transfer_to_self_changes_nothing() {
    let mut ledger = ledger_with(1, 1000, 500, A);
    assert_eq!(ledger.transfer_tokens(1, A, A, 1000, 0), Ok(()));
    assert_eq!(ledger.get_token_balance(1, A), Ok(1000));
    assert_eq!(ledger.get_token_holders(1).unwrap(), vec![A]);
}

#[test]
fn transfer_respects_whitelist_and_accreditation() {
    let mut ledger = ledger_with(1, 1000, 500, A);
    ledger.add_to_whitelist(1, B).unwrap();
    assert_eq!(ledger.transfer_tokens(1, A, C, 10, 0), Err(Error::TransferRestrictionFailed));
    assert_eq!(ledger.transfer_tokens(1, A, B, 10, 0), Ok(()));
    ledger.remove_from_whitelist(1, B).unwrap();
    ledger.set_transfer_restriction(1, true).unwrap();
    assert_eq!(ledger.transfer_tokens(1, A, C, 10, 0), Err(Error::AccreditedInvestorRequired));
    ledger.set_transfer_restriction(1, false).unwrap();
    assert_eq!(ledger.transfer_tokens(1, A, C, 10, 0), Ok(()));
}

#[test]
fn balances_add_up_and_holders_are_positive() {
    let mut ledger = ledger_with(1, 1000, 500, A);
    ledger.transfer_tokens(1, A, B, 300, 0).unwrap();
    ledger.transfer_tokens(1, B, C, 300, 0).unwrap();
    ledger.mint_tokens(1, 50, A).unwrap();
    ledger.transfer_tokens(1, C, B, 10, 0).unwrap();
    ledger.burn_tokens(1, 700, A, 0).unwrap();
    let supply = ledger.get_tokenized_asset(1).unwrap().total_supply;
    assert_eq!(supply, 350);
    assert_eq!(holder_sum(&ledger, 1), supply);
    for h in ledger.get_token_holders(1).unwrap() {
        assert!(ledger.get_token_balance(1, h).unwrap() > 0);
    }
    assert_eq!(ledger.get_token_holders(1).unwrap(), vec![A, C, B]);
}

#[test]
fn valuation_updates() {
    let mut ledger = ledger_with(1, 1000, 500, A);
    assert_eq!(ledger.update_valuation(1, 0), Err(Error::InvalidValuation));
    assert_eq!(ledger.update_valuation(2, 10), Err(Error::AssetNotTokenized));
    assert_eq!(ledger.update_valuation(1, 250_000), Ok(()));
    assert_eq!(ledger.get_tokenized_asset(1).unwrap().valuation, 250_000);
}

#[test]
fn dividends_split_sixty_forty() {
    let mut ledger = ledger_with(42, 1000, 500, A);
    ledger.transfer_tokens(42, A, B, 400, 0).unwrap();
    ledger.enable_revenue_sharing(42).unwrap();
    ledger.distribute_dividends(42, 1000).unwrap();
    assert_eq!(ledger.get_unclaimed_dividends(42, A), Ok(600));
    assert_eq!(ledger.get_unclaimed_dividends(42, B), Ok(400));
    assert_eq!(ledger.claim_dividends(42, A), Ok(600));
    assert_eq!(ledger.get_unclaimed_dividends(42, A), Ok(0));
    assert_eq!(ledger.claim_dividends(42, A), Err(Error::NoDividendsToClaim));
    assert_eq!(ledger.get_unclaimed_dividends(42, B), Ok(400));
}

#[test]
fn dividends_round_down_and_accumulate() {
    let mut ledger = ledger_with(1, 3, 0, A);
    ledger.transfer_tokens(1, A, B, 1, 0).unwrap();
    ledger.enable_revenue_sharing(1).unwrap();
    ledger.distribute_dividends(1, 10).unwrap();
    assert_eq!(ledger.get_unclaimed_dividends(1, A), Ok(6));
    assert_eq!(ledger.get_unclaimed_dividends(1, B), Ok(3));
    ledger.distribute_dividends(1, 10).unwrap();
    assert_eq!(ledger.get_unclaimed_dividends(1, A), Ok(12));
    assert_eq!(ledger.get_unclaimed_dividends(1, B), Ok(6));
    assert_eq!(ledger.get_unclaimed_dividends(1, C), Ok(0));
}

#[test]
fn dividend_errors() {
    let mut ledger = ledger_with(1, 1000, 500, A);
    assert_eq!(ledger.distribute_dividends(1, 100), Err(Error::Unauthorized));
    assert_eq!(ledger.enable_revenue_sharing(2), Err(Error::AssetNotTokenized));
    assert_eq!(ledger.distribute_dividends(2, 100), Err(Error::AssetNotTokenized));
    ledger.enable_revenue_sharing(1).unwrap();
    assert_eq!(ledger.distribute_dividends(1, 0), Err(Error::InvalidDividendAmount));
    assert_eq!(ledger.distribute_dividends(1, i128::MAX), Err(Error::MathOverflow));
    assert_eq!(ledger.get_unclaimed_dividends(1, A), Ok(0));
    assert_eq!(ledger.claim_dividends(1, A), Err(Error::NoDividendsToClaim));
}

#[test]
fn disabling_revenue_sharing_keeps_accrued_dividends() {
    let mut ledger = ledger_with(1, 1000, 500, A);
    ledger.enable_revenue_sharing(1).unwrap();
    ledger.distribute_dividends(1, 70).unwrap();
    ledger.disable_revenue_sharing(1).unwrap();
    assert_eq!(ledger.distribute_dividends(1, 70), Err(Error::Unauthorized));
    assert_eq!(ledger.claim_dividends(1, A), Ok(70));
}

#[test]
fn voting_passes_at_threshold_once_per_voter() {
    let mut ledger = ledger_with(42, 1000, 500, A);
    ledger.transfer_tokens(42, A, B, 400, 0).unwrap();
    assert_eq!(ledger.proposal_passed(42, 7), Ok(false));
    assert_eq!(ledger.cast_vote(42, 7, A), Ok(()));
    assert_eq!(ledger.proposal_passed(42, 7), Ok(true));
    assert_eq!(ledger.get_vote_tally(42, 7), Ok(600));
    assert_eq!(ledger.cast_vote(42, 7, A), Err(Error::AlreadyVoted));
    assert_eq!(ledger.get_vote_tally(42, 7), Ok(600));
    assert_eq!(ledger.has_voted(42, 7, A), Ok(true));
    assert_eq!(ledger.has_voted(42, 7, B), Ok(false));
    assert_eq!(ledger.cast_vote(42, 7, B), Ok(()));
    assert_eq!(ledger.get_vote_tally(42, 7), Ok(1000));
}

#[test]
fn voting_errors() {
    let mut ledger = ledger_with(1, 1000, 500, A);
    assert_eq!(ledger.cast_vote(1, 1, B), Err(Error::InsufficientVotingPower));
    assert_eq!(ledger.cast_vote(2, 1, A), Err(Error::AssetNotTokenized));
    assert_eq!(ledger.get_vote_tally(1, 1), Err(Error::ProposalNotFound));
    assert_eq!(ledger.proposal_passed(2, 1), Err(Error::AssetNotTokenized));
}

#[test]
fn detokenization_needs_a_passed_vote_and_happens_once() {
    let mut ledger = ledger_with(42, 1000, 500, A);
    assert_eq!(ledger.is_detokenization_active(42), Ok(false));
    let id = ledger.propose_detokenization(42, A, 77).unwrap();
    assert_eq!(ledger.is_detokenization_active(42), Ok(true));
    assert_eq!(ledger.propose_detokenization(42, A, 78), Err(Error::DetokenizationAlreadyProposed));
    let p = ledger.get_detokenization_proposal(42).unwrap();
    assert_eq!(p.proposal_id, id);
    assert_eq!(p.proposer, A);
    assert_eq!(p.created_at, 77);
    assert!(!p.executed);
    assert_eq!(ledger.execute_detokenization(42, id), Err(Error::DetokenizationNotApproved));
    assert_eq!(ledger.execute_detokenization(42, id + 1), Err(Error::ProposalNotFound));
    ledger.cast_vote(42, id, A).unwrap();
    assert_eq!(ledger.execute_detokenization(42, id), Ok(()));
    assert_eq!(ledger.execute_detokenization(42, id), Err(Error::InvalidProposal));
    assert_eq!(ledger.is_detokenization_active(42), Ok(false));
    assert!(ledger.get_detokenization_proposal(42).unwrap().executed);
    assert!(ledger.get_tokenized_asset(42).unwrap().detokenized);
    assert_eq!(ledger.mint_tokens(42, 1, A).err(), Some(Error::AssetNotTokenized));
    assert_eq!(ledger.burn_tokens(42, 1, A, 0).err(), Some(Error::AssetNotTokenized));
    assert_eq!(ledger.transfer_tokens(42, A, B, 1, 0), Err(Error::AssetNotTokenized));
    assert_eq!(ledger.propose_detokenization(42, A, 79), Err(Error::AssetNotTokenized));
    assert_eq!(ledger.get_token_balance(42, A), Ok(1000));
}

#[test]
fn detokenization_lookups_on_unknown_assets() {
    let mut ledger = ledger_with(1, 1000, 500, A);
    assert_eq!(ledger.get_detokenization_proposal(1), Err(Error::ProposalNotFound));
    assert_eq!(ledger.propose_detokenization(9, A, 0), Err(Error::AssetNotTokenized));
    assert_eq!(ledger.execute_detokenization(9, 1), Err(Error::AssetNotTokenized));
    assert_eq!(ledger.execute_detokenization(1, 1), Err(Error::ProposalNotFound));
    assert_eq!(ledger.propose_detokenization(1, B, 0), Ok(1));
}

#[test]
fn whitelist_is_idempotent_through_the_ledger() {
    let mut ledger = ledger_with(1, 1000, 500, A);
    ledger.add_to_whitelist(1, B).unwrap();
    ledger.add_to_whitelist(1, B).unwrap();
    assert_eq!(ledger.get_whitelist(1).unwrap(), vec![B]);
    assert_eq!(ledger.remove_from_whitelist(1, C), Ok(()));
    assert_eq!(ledger.get_whitelist(1).unwrap(), vec![B]);
    ledger.add_to_whitelist(1, C).unwrap();
    ledger.remove_from_whitelist(1, B).unwrap();
    assert_eq!(ledger.get_whitelist(1).unwrap(), vec![C]);
    assert_eq!(ledger.is_whitelisted(1, C), Ok(true));
    assert_eq!(ledger.is_whitelisted(1, B), Ok(false));
}

#[test]
fn restriction_copy_keeps_regions_and_clears() {
    let mut rules = assetsup::TransferRules::new();
    let restriction = TransferRestriction { require_accredited: false, geographic_allowed: vec![840, 826] };
    transfer_restrictions::set_transfer_restriction(&mut rules, 4, restriction).unwrap();
    let got = transfer_restrictions::get_transfer_restriction(&rules, 4).unwrap();
    assert_eq!(got.geographic_allowed, vec![840, 826]);
    assert!(!got.require_accredited);
    transfer_restrictions::clear_transfer_restrictions(&mut rules, 4).unwrap();
    assert_eq!(transfer_restrictions::has_transfer_restrictions(&rules, 4), Ok(false));
    assert_eq!(transfer_restrictions::clear_transfer_restrictions(&mut rules, 4), Ok(()));
}
