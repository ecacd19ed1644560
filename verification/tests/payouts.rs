use credit_dex::market::Marketplace;
use credit_dex::types::{DexError, MarketConfig, Payout, PayoutPreference, UserLevel};

fn config() -> MarketConfig {
    MarketConfig {
        min_units_to_create_sell_order: 1,
        min_price_per_unit: 1,
        max_payment_fee: 50,
        max_purchase_fee: 1_000,
        max_validators: 3,
        max_tx_proof_len: 64,
        max_open_orders_per_user: 4,
        buy_order_expiry_time: 100,
    }
}

/// A market where seller 1 has settled a sale and accrued 1000.
fn market_with_receivable() -> Marketplace {
    let mut m = Marketplace::new(config());
    m.register_asset(7, 70, 700);
    m.add_kyc_member(1);
    m.add_kyc_member(2);
    m.mint(7, 1, 1_000).unwrap();
    m.force_set_payment_fee(10).unwrap();
    m.force_set_purchase_fee(10).unwrap();
    m.force_set_open_order_allowed_limits(UserLevel::KycLevel1, 10_000).unwrap();
    m.force_add_validator_account(10).unwrap();
    m.force_add_validator_account(11).unwrap();
    let order = m.create_sell_order(1, 7, 200, 10).unwrap();
    let id = m.create_buy_order(2, order, 7, 100, 10_000, 0).unwrap().unwrap();
    m.validate_buy_order(10, id, 5, vec![1], None).unwrap();
    m.validate_buy_order(11, id, 5, vec![1], None).unwrap();
    assert_eq!(m.seller_receivable(1), Some(1_000));
    m
}

fn payout(amount: u128) -> Payout {
    Payout { amount, reference: vec![0xAA] }
}

#[test]
fn payout_needs_a_configured_authority() {
    let mut m = market_with_receivable();
    assert_eq!(
        m.record_payment_to_seller(50, 1, payout(100)),
        Err(DexError::SellerPayoutAuthorityNotSet)
    );
}

#[test]
fn payout_needs_the_right_authority() {
    let mut m = market_with_receivable();
    m.force_set_seller_payout_authority(50).unwrap();
    assert_eq!(
        m.record_payment_to_seller(51, 1, payout(100)),
        Err(DexError::NotSellerPayoutAuthority)
    );
}

#[test]
fn payout_needs_a_receivable_record() {
    let mut m = market_with_receivable();
    m.force_set_seller_payout_authority(50).unwrap();
    assert_eq!(
        m.record_payment_to_seller(50, 3, payout(100)),
        Err(DexError::NoReceivables)
    );
}

#[test]
fn payout_cannot_exceed_the_receivable() {
    let mut m = market_with_receivable();
    m.force_set_seller_payout_authority(50).unwrap();
    assert_eq!(
        m.record_payment_to_seller(50, 1, payout(1_001)),
        Err(DexError::ReceivableLessThanPayment)
    );
    assert_eq!(m.seller_receivable(1), Some(1_000));
}

#[test]
fn payout_deducts_the_running_balance() {
    let mut m = market_with_receivable();
    m.force_set_seller_payout_authority(50).unwrap();
    m.record_payment_to_seller(50, 1, payout(400)).unwrap();
    assert_eq!(m.seller_receivable(1), Some(600));
    m.record_payment_to_seller(50, 1, payout(600)).unwrap();
    // The record stays, at zero, once fully paid out.
    assert_eq!(m.seller_receivable(1), Some(0));
    assert_eq!(
        m.record_payment_to_seller(50, 1, payout(1)),
        Err(DexError::ReceivableLessThanPayment)
    );
}

#[test]
fn preference_is_an_upsert_and_a_removal() {
    let mut m = market_with_receivable();
    m.set_seller_payout_preference(
        1,
        Some(PayoutPreference { channel_id: 3, address: vec![1, 2, 3] }),
    )
    .unwrap();
    m.set_seller_payout_preference(
        1,
        Some(PayoutPreference { channel_id: 4, address: vec![9] }),
    )
    .unwrap();
    let stored = m.seller_payout_preference(1).unwrap();
    assert_eq!(stored.channel_id, 4);
    assert_eq!(stored.address, vec![9]);
    m.set_seller_payout_preference(1, None).unwrap();
    assert!(m.seller_payout_preference(1).is_none());
}
