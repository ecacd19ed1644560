use credit_dex::market::Marketplace;
use credit_dex::types::{DexError, MarketConfig, UserLevel};

fn config() -> MarketConfig {
    MarketConfig {
        min_units_to_create_sell_order: 1,
        min_price_per_unit: 1,
        max_payment_fee: 50,
        max_purchase_fee: 1_000,
        max_validators: 2,
        max_tx_proof_len: 64,
        max_open_orders_per_user: 4,
        buy_order_expiry_time: 100,
    }
}

#[test]
fn fee_setters_enforce_their_caps() {
    let mut m = Marketplace::new(config());
    m.force_set_payment_fee(50).unwrap();
    assert_eq!(m.payment_fee_rate, 50);
    assert_eq!(
        m.force_set_payment_fee(51),
        Err(DexError::CannotSetMoreThanMaxPaymentFee)
    );
    assert_eq!(m.payment_fee_rate, 50);
    m.force_set_purchase_fee(1_000).unwrap();
    assert_eq!(m.purchase_fee, 1_000);
    assert_eq!(
        m.force_set_purchase_fee(1_001),
        Err(DexError::CannotSetMoreThanMaxPurchaseFee)
    );
}

#[test]
fn quorum_threshold_defaults_to_two_and_rejects_zero() {
    let mut m = Marketplace::new(config());
    assert_eq!(m.min_payment_validators, 2);
    assert_eq!(
        m.force_set_min_validations(0),
        Err(DexError::MinValidatorsCannotBeZero)
    );
    m.force_set_min_validations(3).unwrap();
    assert_eq!(m.min_payment_validators, 3);
}

#[test]
fn validator_set_rejects_duplicates_and_overflow() {
    let mut m = Marketplace::new(config());
    m.force_add_validator_account(10).unwrap();
    assert_eq!(
        m.force_add_validator_account(10),
        Err(DexError::ValidatorAccountAlreadyExists)
    );
    m.force_add_validator_account(11).unwrap();
    assert_eq!(
        m.force_add_validator_account(12),
        Err(DexError::TooManyValidatorAccounts)
    );
    assert!(m.check_validator_account(10).is_ok());
    assert_eq!(m.check_validator_account(12), Err(DexError::NotAuthorised));
}

#[test]
fn removing_an_absent_validator_is_silent() {
    let mut m = Marketplace::new(config());
    m.force_add_validator_account(10).unwrap();
    let events_before = m.events.len();
    m.force_remove_validator_account(99).unwrap();
    assert_eq!(m.events.len(), events_before);
    m.force_remove_validator_account(10).unwrap();
    assert_eq!(m.check_validator_account(10), Err(DexError::NotAuthorised));
}

#[test]
fn kyc_list_gates_participants() {
    let mut m = Marketplace::new(config());
    assert_eq!(
        m.check_kyc_approval(1),
        Err(DexError::KYCAuthorisationFailed)
    );
    m.add_kyc_member(1);
    assert!(m.check_kyc_approval(1).is_ok());
}

#[test]
fn clearing_a_buyer_index_zeroes_their_exposure() {
    let mut m = Marketplace::new(config());
    m.register_asset(7, 70, 700);
    m.add_kyc_member(1);
    m.add_kyc_member(2);
    m.mint(7, 1, 1_000).unwrap();
    m.force_set_open_order_allowed_limits(UserLevel::KycLevel1, 100).unwrap();
    let order = m.create_sell_order(1, 7, 200, 10).unwrap();
    m.create_buy_order(2, order, 7, 100, 10_000, 0).unwrap();
    assert_eq!(m.exposure_units_of(2), 100);
    assert_eq!(
        m.create_buy_order(2, order, 7, 1, 10_000, 0),
        Err(DexError::UserOpenOrderUnitsAllowedExceeded)
    );
    m.force_clear_buy_orders_per_user(2).unwrap();
    assert_eq!(m.exposure_units_of(2), 0);
    m.create_buy_order(2, order, 7, 100, 10_000, 0).unwrap();
}

#[test]
fn tier_limit_can_be_raised_and_lowered() {
    let mut m = Marketplace::new(config());
    assert!(m.open_order_units_allowed.is_none());
    m.force_set_open_order_allowed_limits(UserLevel::KycLevel1, 5).unwrap();
    assert_eq!(m.open_order_units_allowed, Some(5));
    m.force_set_open_order_allowed_limits(UserLevel::KycLevel1, 9).unwrap();
    assert_eq!(m.open_order_units_allowed, Some(9));
}
