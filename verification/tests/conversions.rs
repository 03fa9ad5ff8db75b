use volatility_shield::{Error, Principal, VolatilityShield};

fn fresh_vault(fee_percentage: u32) -> VolatilityShield {
    let admin = Principal(1);
    let asset = Principal(2);
    let oracle = Principal(3);
    let treasury = Principal(4);
    VolatilityShield::init(admin, asset, oracle, treasury, fee_percentage, vec![admin], 1)
}

#[test]
fn test_convert_to_assets() {
    let mut vault = fresh_vault(0);

    // 1. Test 1:1 conversion when total_shares is 0
    assert_eq!(vault.convert_to_assets(100), Ok(100));

    // 2. Test exact conversion
    vault.set_total_assets(100).unwrap();
    vault.set_total_shares(100).unwrap();
    assert_eq!(vault.convert_to_assets(50), Ok(50));

    // 3. Test rounding down (favors vault)
    vault.set_total_assets(10).unwrap();
    vault.set_total_shares(4).unwrap();
    assert_eq!(vault.convert_to_assets(3), Ok(7));

    // 4. Test larger values
    vault.set_total_assets(1000).unwrap();
    vault.set_total_shares(300).unwrap();
    assert_eq!(vault.convert_to_assets(100), Ok(333));
}

#[test]
fn test_convert_to_assets_negative() {
    let vault = fresh_vault(0);
    assert_eq!(vault.convert_to_assets(-1), Err(Error::NegativeAmount));
}

#[test]
fn test_convert_to_shares() {
    let mut vault = fresh_vault(0);

    // 1. Initial Deposit (total_shares = 0)
    assert_eq!(vault.convert_to_shares(100), Ok(100));

    // 2. Precision Loss (favors vault by rounding down)
    vault.set_total_assets(3).unwrap();
    vault.set_total_shares(1).unwrap();
    assert_eq!(vault.convert_to_shares(10), Ok(3));

    // 3. Standard Proportional Minting
    vault.set_total_assets(1000).unwrap();
    vault.set_total_shares(500).unwrap();
    assert_eq!(vault.convert_to_shares(200), Ok(100));

    // 4. Rounding Down with Large Values
    vault.set_total_assets(300).unwrap();
    vault.set_total_shares(1000).unwrap();
    assert_eq!(vault.convert_to_shares(100), Ok(333));
}

#[test]
fn test_convert_to_shares_negative() {
    let vault = fresh_vault(0);
    assert_eq!(vault.convert_to_shares(-1), Err(Error::NegativeAmount));
}

#[test]
fn test_take_fees() {
    let vault = fresh_vault(500);
    let deposit_amount = 1000;
    let remaining = vault.take_fees(deposit_amount);
    assert_eq!(remaining, Ok(950));
}

#[test]
fn test_take_fees_zero_rate_is_identity() {
    let vault = fresh_vault(0);
    assert_eq!(vault.take_fees(1000), Ok(1000));
}

#[test]
fn test_bootstrap_conversions_are_identity() {
    // Either total being zero makes both conversions the identity.
    let mut vault = fresh_vault(0);
    vault.set_total_shares(5).unwrap();
    assert_eq!(vault.total_assets(), 0);
    assert_eq!(vault.convert_to_shares(7), Ok(7));
    assert_eq!(vault.convert_to_assets(7), Ok(7));

    vault.set_total_shares(0).unwrap();
    vault.set_total_assets(9).unwrap();
    assert_eq!(vault.convert_to_shares(7), Ok(7));
    assert_eq!(vault.convert_to_assets(7), Ok(7));
}

#[test]
fn test_conversions_accept_zero_amount() {
    let mut vault = fresh_vault(0);
    vault.set_total_assets(10).unwrap();
    vault.set_total_shares(4).unwrap();
    assert_eq!(vault.convert_to_shares(0), Ok(0));
    assert_eq!(vault.convert_to_assets(0), Ok(0));
}

#[test]
fn test_conversion_overflow_refused() {
    let mut vault = fresh_vault(0);
    vault.set_total_assets(3).unwrap();
    vault.set_total_shares(i128::MAX).unwrap();
    assert_eq!(vault.convert_to_shares(2), Err(Error::Overflow));
    vault.set_total_assets(i128::MAX).unwrap();
    vault.set_total_shares(3).unwrap();
    assert_eq!(vault.convert_to_assets(2), Err(Error::Overflow));
}

#[test]
fn test_take_fees_negative_rejected() {
    let vault = fresh_vault(500);
    assert_eq!(vault.take_fees(-100), Err(Error::NegativeAmount));
}
