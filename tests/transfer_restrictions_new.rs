use assetsup::transfer_restrictions;
use assetsup::{AccountId, AssetType, AssetUpContract, TokenMetadata, TransferRestriction, TransferRules};

fn setup_tokenized_asset(ledger: &mut AssetUpContract, asset_id: u64, tokenizer: AccountId) {
    ledger
        .tokenize_with_metadata(
            asset_id,
            String::from("RESTR"),
            1000,
            2,
            100,
            tokenizer,
            TokenMetadata {
                name: String::from("Restriction Test"),
                description: String::from("Test"),
                asset_type: AssetType::Digital,
                ipfs_uri: None,
                legal_docs_hash: None,
                valuation_report_hash: None,
                accredited_investor_required: false,
                geographic_restrictions: Vec::new(),
            },
        )
        .unwrap();
}

#[test]
fn test_set_transfer_restriction() {
    let mut ledger = AssetUpContract::new();
    let mut rules = TransferRules::new();
    let tokenizer: AccountId = 1;
    let asset_id = 900u64;

    setup_tokenized_asset(&mut ledger, asset_id, tokenizer);
    let restriction = TransferRestriction { require_accredited: true, geographic_allowed: Vec::new() };
    let set_ok = transfer_restrictions::set_transfer_restriction(&mut rules, asset_id, restriction).is_ok();
    let has_restrictions = transfer_restrictions::has_transfer_restrictions(&rules, asset_id).unwrap();

    assert!(set_ok);
    assert!(has_restrictions);
}

#[test]
fn test_whitelist_operations() {
    let mut ledger = AssetUpContract::new();
    let mut rules = TransferRules::new();
    let tokenizer: AccountId = 1;
    let whitelisted: AccountId = 2;
    let asset_id = 900u64;

    setup_tokenized_asset(&mut ledger, asset_id, tokenizer);
    transfer_restrictions::add_to_whitelist(&mut rules, asset_id, whitelisted).unwrap();
    let is_wl_after_add = transfer_restrictions::is_whitelisted(&rules, asset_id, whitelisted).unwrap();
    let list_len = transfer_restrictions::get_whitelist(&rules, asset_id).unwrap().len();
    transfer_restrictions::remove_from_whitelist(&mut rules, asset_id, whitelisted).unwrap();
    let is_wl_after_remove = transfer_restrictions::is_whitelisted(&rules, asset_id, whitelisted).unwrap();

    assert!(is_wl_after_add);
    assert_eq!(list_len, 1);
    assert!(!is_wl_after_remove);
}

#[test]
fn test_whitelist_duplicate_prevention() {
    let mut ledger = AssetUpContract::new();
    let mut rules = TransferRules::new();
    let tokenizer: AccountId = 1;
    let whitelisted: AccountId = 2;
    let asset_id = 900u64;

    setup_tokenized_asset(&mut ledger, asset_id, tokenizer);
    transfer_restrictions::add_to_whitelist(&mut rules, asset_id, whitelisted).unwrap();
    transfer_restrictions::add_to_whitelist(&mut rules, asset_id, whitelisted).unwrap();
    let list_len = transfer_restrictions::get_whitelist(&rules, asset_id).unwrap().len();

    assert_eq!(list_len, 1);
}

#[test]
fn test_validate_transfer_no_restrictions() {
    let mut ledger = AssetUpContract::new();
    let rules = TransferRules::new();
    let tokenizer: AccountId = 1;
    let recipient: AccountId = 2;
    let asset_id = 900u64;

    setup_tokenized_asset(&mut ledger, asset_id, tokenizer);
    let valid = transfer_restrictions::validate_transfer(&rules, asset_id, tokenizer, recipient).unwrap();

    assert!(valid);
}

#[test]
fn test_get_transfer_restriction() {
    let mut ledger = AssetUpContract::new();
    let mut rules = TransferRules::new();
    let tokenizer: AccountId = 1;
    let asset_id = 900u64;

    setup_tokenized_asset(&mut ledger, asset_id, tokenizer);
    let before_err = transfer_restrictions::get_transfer_restriction(&rules, asset_id).is_err();
    let new_restriction = TransferRestriction { require_accredited: true, geographic_allowed: Vec::new() };
    transfer_restrictions::set_transfer_restriction(&mut rules, asset_id, new_restriction).unwrap();
    let after = transfer_restrictions::get_transfer_restriction(&rules, asset_id).unwrap();

    assert!(before_err);
    assert!(after.require_accredited);
}

#[test]
fn test_validate_transfer_blocked_when_not_whitelisted() {
    let mut ledger = AssetUpContract::new();
    let mut rules = TransferRules::new();
    let tokenizer: AccountId = 1;
    let whitelisted: AccountId = 2;
    let not_whitelisted: AccountId = 3;
    let asset_id = 901u64;

    setup_tokenized_asset(&mut ledger, asset_id, tokenizer);
    transfer_restrictions::add_to_whitelist(&mut rules, asset_id, whitelisted).unwrap();
    let allowed_result = transfer_restrictions::validate_transfer(&rules, asset_id, tokenizer, whitelisted);
    let blocked_result = transfer_restrictions::validate_transfer(&rules, asset_id, tokenizer, not_whitelisted);

    assert!(allowed_result.is_ok());
    assert!(blocked_result.is_err());
}

#[test]
fn test_validate_transfer_empty_whitelist_allows_all() {
    let mut ledger = AssetUpContract::new();
    let rules = TransferRules::new();
    let tokenizer: AccountId = 1;
    let recipient: AccountId = 2;
    let asset_id = 902u64;

    setup_tokenized_asset(&mut ledger, asset_id, tokenizer);
    let result = transfer_restrictions::validate_transfer(&rules, asset_id, tokenizer, recipient);

    assert!(result.is_ok());
    assert!(result.unwrap());
}

#[test]
fn test_validate_transfer_accredited_required_uses_whitelist() {
    let mut ledger = AssetUpContract::new();
    let mut rules = TransferRules::new();
    let tokenizer: AccountId = 1;
    let accredited: AccountId = 2;
    let non_accredited: AccountId = 3;
    let asset_id = 903u64;

    setup_tokenized_asset(&mut ledger, asset_id, tokenizer);
    let restriction = TransferRestriction { require_accredited: true, geographic_allowed: Vec::new() };
    transfer_restrictions::set_transfer_restriction(&mut rules, asset_id, restriction).unwrap();
    transfer_restrictions::add_to_whitelist(&mut rules, asset_id, accredited).unwrap();
    let ok_result = transfer_restrictions::validate_transfer(&rules, asset_id, tokenizer, accredited);
    let err_result = transfer_restrictions::validate_transfer(&rules, asset_id, tokenizer, non_accredited);

    assert!(ok_result.is_ok());
    assert!(err_result.is_err());
}
