use assetsup::registry::{
    is_valid_metadata_uri, register_asset, remove_authorized_registrar, retire_asset,
    transfer_asset_ownership, update_admin, update_asset_metadata, validate_asset, Asset, AssetStatus,
    CustomAttribute, NULL_ACCOUNT,
};
use assetsup::Error;

const OWNER: u64 = 5;
const ADMIN: u64 = 6;
const OTHER: u64 = 7;

fn asset() -> Asset {
    Asset {
        id: [3u8; 32],
        name: String::from("Test Asset"),
        description: String::from("A test asset for unit testing"),
        category: String::from("Electronics"),
        owner: OWNER,
        registration_timestamp: 0,
        last_transfer_timestamp: 0,
        status: AssetStatus::Active,
        metadata_uri: String::from("ipfs://QmTest123456789"),
        purchase_value: 1000,
        custom_attributes: Vec::new(),
    }
}

#[test]
fn metadata_uri_length_bounds() {
    assert!(!is_valid_metadata_uri(&String::from("0123456789")));
    assert!(is_valid_metadata_uri(&String::from("01234567890")));
    assert!(is_valid_metadata_uri(&"x".repeat(499)));
    assert!(!is_valid_metadata_uri(&"x".repeat(500)));
}

#[test]
fn asset_validation() {
    assert_eq!(validate_asset(&asset()), Ok(()));
    let mut a = asset();
    a.name = String::from("ab");
    assert_eq!(validate_asset(&a), Err(Error::InvalidAssetName));
    a.name = "n".repeat(101);
    assert_eq!(validate_asset(&a), Err(Error::InvalidAssetName));
    a.name = "n".repeat(100);
    assert_eq!(validate_asset(&a), Ok(()));
    a.purchase_value = -1;
    assert_eq!(validate_asset(&a), Err(Error::InvalidPurchaseValue));
    a.purchase_value = 0;
    a.metadata_uri = String::from("short");
    assert_eq!(validate_asset(&a), Err(Error::InvalidMetadataUri));
    a.metadata_uri = String::new();
    assert_eq!(validate_asset(&a), Ok(()));
    a.owner = NULL_ACCOUNT;
    assert_eq!(validate_asset(&a), Err(Error::InvalidOwnerAddress));
}

#[test]
fn registration_gate() {
    let a = asset();
    assert_eq!(register_asset(&a, true, true, false), Err(Error::ContractPaused));
    assert_eq!(register_asset(&a, false, false, false), Err(Error::Unauthorized));
    assert_eq!(register_asset(&a, false, true, true), Err(Error::AssetAlreadyExists));
    assert_eq!(register_asset(&a, false, true, false), Ok(()));
}

#[test]
fn metadata_update() {
    let attrs = vec![CustomAttribute { key: String::from("serial_number"), value: String::from("SN123456") }];
    let updated = update_asset_metadata(
        Some(asset()),
        Some(String::from("Refurbished")),
        None,
        Some(attrs),
        ADMIN,
        ADMIN,
        false,
    )
    .unwrap();
    assert_eq!(updated.description, "Refurbished");
    assert_eq!(updated.metadata_uri, "ipfs://QmTest123456789");
    assert_eq!(updated.custom_attributes.len(), 1);
    assert_eq!(updated.custom_attributes[0].value, "SN123456");
    let r = update_asset_metadata(Some(asset()), None, Some(String::from("bad")), None, OWNER, ADMIN, false);
    assert_eq!(r.err(), Some(Error::InvalidMetadataUri));
    let r = update_asset_metadata(Some(asset()), None, None, None, OTHER, ADMIN, false);
    assert_eq!(r.err(), Some(Error::Unauthorized));
    let r = update_asset_metadata(None, None, None, None, OWNER, ADMIN, false);
    assert_eq!(r.err(), Some(Error::AssetNotFound));
    let r = update_asset_metadata(Some(asset()), None, None, None, OWNER, ADMIN, true);
    assert_eq!(r.err(), Some(Error::ContractPaused));
}

#[test]
fn ownership_transfer() {
    let moved = transfer_asset_ownership(Some(asset()), OTHER, OWNER, 1234, false).unwrap();
    assert_eq!(moved.owner, OTHER);
    assert_eq!(moved.last_transfer_timestamp, 1234);
    assert_eq!(moved.status, AssetStatus::Transferred);
    assert_eq!(moved.name, "Test Asset");
    let r = transfer_asset_ownership(Some(asset()), OTHER, ADMIN, 1, false);
    assert_eq!(r.err(), Some(Error::Unauthorized));
    let r = transfer_asset_ownership(None, NULL_ACCOUNT, OWNER, 1, false);
    assert_eq!(r.err(), Some(Error::InvalidOwnerAddress));
    let r = transfer_asset_ownership(None, OTHER, OWNER, 1, false);
    assert_eq!(r.err(), Some(Error::AssetNotFound));
}

#[test]
fn retirement_and_admin_rules() {
    let retired = retire_asset(Some(asset()), ADMIN, ADMIN, false).unwrap();
    assert_eq!(retired.status, AssetStatus::Retired);
    assert_eq!(retire_asset(Some(asset()), OTHER, ADMIN, false).err(), Some(Error::Unauthorized));
    assert_eq!(retire_asset(None, OWNER, ADMIN, false).err(), Some(Error::AssetNotFound));
    assert_eq!(update_admin(NULL_ACCOUNT), Err(Error::InvalidOwnerAddress));
    assert_eq!(update_admin(ADMIN), Ok(()));
    assert_eq!(remove_authorized_registrar(ADMIN, ADMIN), Err(Error::Unauthorized));
    assert_eq!(remove_authorized_registrar(OTHER, ADMIN), Ok(()));
}
