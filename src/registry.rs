use vstd::prelude::*;
use vstd::utf8::encode_utf8;

use crate::error::Error;
use crate::holdings::AccountId;

verus! {

/// The account that stands for the all-zero address; nothing may be owned by
/// it or administered by it.
pub const NULL_ACCOUNT: AccountId = 0;

#[derive(Clone, Copy, Debug, PartialEq, Eq, Structural)]
pub enum AssetStatus {
    Active,
    Transferred,
    Retired,
}

pub struct CustomAttribute {
    pub key: String,
    pub value: String,
}

/// A physical asset in the registry.
pub struct Asset {
    pub id: [u8; 32],
    pub name: String,
    pub description: String,
    pub category: String,
    pub owner: AccountId,
    pub registration_timestamp: u64,
    pub last_transfer_timestamp: u64,
    pub status: AssetStatus,
    pub metadata_uri: String,
    pub purchase_value: i128,
    pub custom_attributes: Vec<CustomAttribute>,
}

/// The length of `s` in UTF-8 bytes, as `str::len` gives it.
pub open spec fn byte_len(s: String) -> int {
    (encode_utf8(s@).len() as usize) as int
}

/// A metadata URI of a plausible length: more than 10 and fewer than 500
/// bytes.
pub open spec fn valid_uri(uri: String) -> bool {
    10 < byte_len(uri) < 500
}

pub fn is_valid_metadata_uri(uri: &String) -> (r: bool)
    ensures
        r == valid_uri(*uri),
{
    let n = uri.as_str().len();
    n > 10 && n < 500
}

pub open spec fn asset_error(a: Asset) -> Option<Error> {
    if byte_len(a.name) < 3 || byte_len(a.name) > 100 {
        Some(Error::InvalidAssetName)
    } else if a.purchase_value < 0 {
        Some(Error::InvalidPurchaseValue)
    } else if byte_len(a.metadata_uri) != 0 && !valid_uri(a.metadata_uri) {
        Some(Error::InvalidMetadataUri)
    } else if a.owner == NULL_ACCOUNT {
        Some(Error::InvalidOwnerAddress)
    } else {
        None
    }
}

/// Checks an asset record: a name of 3 to 100 bytes, a non-negative
/// purchase value, an empty or plausible metadata URI, a real owner.
pub fn validate_asset(asset: &Asset) -> (r: Result<(), Error>)
    ensures
        r is Err <==> asset_error(*asset) is Some,
        r is Err ==> Some(r->Err_0) == asset_error(*asset),
{
    let name_len = asset.name.as_str().len();
    if name_len < 3 || name_len > 100 {
        return Err(Error::InvalidAssetName);
    }
    if asset.purchase_value < 0 {
        return Err(Error::InvalidPurchaseValue);
    }
    if asset.metadata_uri.as_str().len() != 0 && !is_valid_metadata_uri(&asset.metadata_uri) {
        return Err(Error::InvalidMetadataUri);
    }
    if asset.owner == NULL_ACCOUNT {
        return Err(Error::InvalidOwnerAddress);
    }
    Ok(())
}

pub open spec fn register_error(a: Asset, paused: bool, is_registrar: bool, exists: bool) -> Option<
    Error,
> {
    if paused {
        Some(Error::ContractPaused)
    } else if !is_registrar {
        Some(Error::Unauthorized)
    } else if asset_error(a) is Some {
        asset_error(a)
    } else if exists {
        Some(Error::AssetAlreadyExists)
    } else {
        None
    }
}

/// Decides whether `asset` may be registered: the registry is not paused,
/// the caller is an authorized registrar, the record is valid and its id not
/// yet taken (`exists`).
pub fn register_asset(asset: &Asset, paused: bool, is_registrar: bool, exists: bool) -> (r: Result<
    (),
    Error,
>)
    ensures
        r is Err <==> register_error(*asset, paused, is_registrar, exists) is Some,
        r is Err ==> Some(r->Err_0) == register_error(*asset, paused, is_registrar, exists),
{
    if paused {
        return Err(Error::ContractPaused);
    }
    if !is_registrar {
        return Err(Error::Unauthorized);
    }
    match validate_asset(asset) {
        Err(e) => return Err(e),
        Ok(_) => {},
    }
    if exists {
        return Err(Error::AssetAlreadyExists);
    }
    Ok(())
}

pub open spec fn update_error(
    asset: Option<Asset>,
    new_metadata_uri: Option<String>,
    caller: AccountId,
    admin: AccountId,
    paused: bool,
) -> Option<Error> {
    if paused {
        Some(Error::ContractPaused)
    } else if asset is None {
        Some(Error::AssetNotFound)
    } else if caller != asset->Some_0.owner && caller != admin {
        Some(Error::Unauthorized)
    } else if new_metadata_uri is Some && byte_len(new_metadata_uri->Some_0) != 0 && !valid_uri(
        new_metadata_uri->Some_0,
    ) {
        Some(Error::InvalidMetadataUri)
    } else {
        None
    }
}

pub open spec fn or_keep<T>(new: Option<T>, old: T) -> T {
    match new {
        Some(x) => x,
        None => old,
    }
}

/// Replaces the description, metadata URI and custom attributes of `asset`
/// that are given, on behalf of its owner or the admin.
pub fn update_asset_metadata(
    asset: Option<Asset>,
    new_description: Option<String>,
    new_metadata_uri: Option<String>,
    new_custom_attributes: Option<Vec<CustomAttribute>>,
    caller: AccountId,
    admin: AccountId,
    paused: bool,
) -> (r: Result<Asset, Error>)
    ensures
        r is Err <==> update_error(asset, new_metadata_uri, caller, admin, paused) is Some,
        match r {
            Ok(a) => a == (Asset {
                description: or_keep(new_description, asset->Some_0.description),
                metadata_uri: or_keep(new_metadata_uri, asset->Some_0.metadata_uri),
                custom_attributes: or_keep(new_custom_attributes, asset->Some_0.custom_attributes),
                ..asset->Some_0
            }),
            Err(e) => Some(e) == update_error(asset, new_metadata_uri, caller, admin, paused),
        },
{
    if paused {
        return Err(Error::ContractPaused);
    }
    let mut a = match asset {
        Some(a) => a,
        None => return Err(Error::AssetNotFound),
    };
    if caller != a.owner && caller != admin {
        return Err(Error::Unauthorized);
    }
    if let Some(uri) = &new_metadata_uri {
        if uri.as_str().len() != 0 && !is_valid_metadata_uri(uri) {
            return Err(Error::InvalidMetadataUri);
        }
    }
    if let Some(d) = new_description {
        a.description = d;
    }
    if let Some(u) = new_metadata_uri {
        a.metadata_uri = u;
    }
    if let Some(c) = new_custom_attributes {
        a.custom_attributes = c;
    }
    Ok(a)
}

pub open spec fn transfer_error(
    asset: Option<Asset>,
    new_owner: AccountId,
    caller: AccountId,
    paused: bool,
) -> Option<Error> {
    if paused {
        Some(Error::ContractPaused)
    } else if new_owner == NULL_ACCOUNT {
        Some(Error::InvalidOwnerAddress)
    } else if asset is None {
        Some(Error::AssetNotFound)
    } else if caller != asset->Some_0.owner {
        Some(Error::Unauthorized)
    } else {
        None
    }
}

/// Hands `asset` to `new_owner` at time `now`, on behalf of its owner.
pub fn transfer_asset_ownership(
    asset: Option<Asset>,
    new_owner: AccountId,
    caller: AccountId,
    now: u64,
    paused: bool,
) -> (r: Result<Asset, Error>)
    ensures
        r is Err <==> transfer_error(asset, new_owner, caller, paused) is Some,
        match r {
            Ok(a) => a == (Asset {
                owner: new_owner,
                last_transfer_timestamp: now,
                status: AssetStatus::Transferred,
                ..asset->Some_0
            }),
            Err(e) => Some(e) == transfer_error(asset, new_owner, caller, paused),
        },
{
    if paused {
        return Err(Error::ContractPaused);
    }
    if new_owner == NULL_ACCOUNT {
        return Err(Error::InvalidOwnerAddress);
    }
    let mut a = match asset {
        Some(a) => a,
        None => return Err(Error::AssetNotFound),
    };
    if caller != a.owner {
        return Err(Error::Unauthorized);
    }
    a.owner = new_owner;
    a.last_transfer_timestamp = now;
    a.status = AssetStatus::Transferred;
    Ok(a)
}

pub open spec fn retire_error(
    asset: Option<Asset>,
    caller: AccountId,
    admin: AccountId,
    paused: bool,
) -> Option<Error> {
    if paused {
        Some(Error::ContractPaused)
    } else if asset is None {
        Some(Error::AssetNotFound)
    } else if caller != asset->Some_0.owner && caller != admin {
        Some(Error::Unauthorized)
    } else {
        None
    }
}

/// Retires `asset`, on behalf of its owner or the admin.
pub fn retire_asset(asset: Option<Asset>, caller: AccountId, admin: AccountId, paused: bool) -> (r:
    Result<Asset, Error>)
    ensures
        r is Err <==> retire_error(asset, caller, admin, paused) is Some,
        match r {
            Ok(a) => a == (Asset { status: AssetStatus::Retired, ..asset->Some_0 }),
            Err(e) => Some(e) == retire_error(asset, caller, admin, paused),
        },
{
    if paused {
        return Err(Error::ContractPaused);
    }
    let mut a = match asset {
        Some(a) => a,
        None => return Err(Error::AssetNotFound),
    };
    if caller != a.owner && caller != admin {
        return Err(Error::Unauthorized);
    }
    a.status = AssetStatus::Retired;
    Ok(a)
}

/// A new admin must be a real account.
pub fn update_admin(new_admin: AccountId) -> (r: Result<(), Error>)
    ensures
        r is Err <==> new_admin == NULL_ACCOUNT,
        r is Err ==> r->Err_0 == Error::InvalidOwnerAddress,
{
    if new_admin == NULL_ACCOUNT {
        return Err(Error::InvalidOwnerAddress);
    }
    Ok(())
}

/// The admin cannot be struck from the registrars.
pub fn remove_authorized_registrar(registrar: AccountId, admin: AccountId) -> (r: Result<(), Error>)
    ensures
        r is Err <==> registrar == admin,
        r is Err ==> r->Err_0 == Error::Unauthorized,
{
    if registrar == admin {
        return Err(Error::Unauthorized);
    }
    Ok(())
}

} // verus!
