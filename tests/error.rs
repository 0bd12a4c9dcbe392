use assetsup::{dummy_function, Error};

#[test]
fn test_dummy_function_asset_exists() {
    let result = dummy_function(true);
    assert_eq!(result, Err(Error::AssetAlreadyExists));
}

#[test]
fn test_dummy_function_asset_not_exists() {
    let result = dummy_function(false);
    assert_eq!(result, Ok(()));
}
