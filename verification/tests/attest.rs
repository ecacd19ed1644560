use credit_dex::market::Marketplace;
use credit_dex::types::{DexError, Event, MarketConfig, UserLevel};

fn config() -> MarketConfig {
    MarketConfig {
        min_units_to_create_sell_order: 1,
        min_price_per_unit: 1,
        max_payment_fee: 50,
        max_purchase_fee: 1_000,
        max_validators: 3,
        max_tx_proof_len: 64,
        max_open_orders_per_user: 4,
        buy_order_expiry_time: 100,
    }
}

/// A market with one 100-unit reservation pending and validators 10, 11, 12.
fn market_with_reservation() -> (Marketplace, u128) {
    let mut m = Marketplace::new(config());
    m.register_asset(7, 70, 700);
    m.add_kyc_member(1);
    m.add_kyc_member(2);
    m.mint(7, 1, 1_000).unwrap();
    m.force_set_payment_fee(10).unwrap();
    m.force_set_purchase_fee(10).unwrap();
    m.force_set_open_order_allowed_limits(UserLevel::KycLevel1, 10_000).unwrap();
    m.force_add_validator_account(10).unwrap();
    m.force_add_validator_account(11).unwrap();
    m.force_add_validator_account(12).unwrap();
    let order = m.create_sell_order(1, 7, 200, 10).unwrap();
    let id = m.create_buy_order(2, order, 7, 100, 10_000, 0).unwrap().unwrap();
    (m, id)
}

#[test]
fn attest_requires_a_validator() {
    let (mut m, id) = market_with_reservation();
    assert_eq!(
        m.validate_buy_order(9, id, 5, vec![1, 2], None),
        Err(DexError::NotAuthorised)
    );
}

#[test]
fn attest_unknown_order_fails() {
    let (mut m, _) = market_with_reservation();
    assert_eq!(
        m.validate_buy_order(10, 99, 5, vec![1, 2], None),
        Err(DexError::InvalidOrderId)
    );
}

#[test]
fn first_attestation_records_proof_without_settling() {
    let (mut m, id) = market_with_reservation();
    m.validate_buy_order(10, id, 5, vec![1, 2], None).unwrap();
    let b = m.buy_order_info(id).unwrap();
    let pi = b.payment_info.as_ref().unwrap();
    assert_eq!(pi.chain_id, 5);
    assert_eq!(pi.tx_proof, vec![1, 2]);
    assert_eq!(pi.validators, vec![10]);
    // Nothing settled: escrow and receivables untouched.
    assert_eq!(m.ledger.escrowed_amount(7), 200);
    assert!(m.seller_receivable(1).is_none());
    assert!(matches!(
        m.events.last().unwrap(),
        Event::BuyOrderPaymentValidated { order_id: 0, chain_id: 5, validator: 10 }
    ));
}

#[test]
fn duplicate_attestation_changes_nothing() {
    let (mut m, id) = market_with_reservation();
    m.validate_buy_order(10, id, 5, vec![1, 2], None).unwrap();
    let events_before = m.events.len();
    assert_eq!(
        m.validate_buy_order(10, id, 5, vec![1, 2], None),
        Err(DexError::DuplicateValidation)
    );
    let b = m.buy_order_info(id).unwrap();
    assert_eq!(b.payment_info.as_ref().unwrap().validators, vec![10]);
    assert_eq!(m.events.len(), events_before);
}

#[test]
fn conflicting_chain_or_proof_is_rejected() {
    let (mut m, id) = market_with_reservation();
    m.validate_buy_order(10, id, 5, vec![1, 2], None).unwrap();
    assert_eq!(
        m.validate_buy_order(11, id, 6, vec![1, 2], None),
        Err(DexError::ChainIdMismatch)
    );
    assert_eq!(
        m.validate_buy_order(11, id, 5, vec![1, 3], None),
        Err(DexError::TxProofMismatch)
    );
    // The stored attestation is untouched by the conflicting attempts.
    let b = m.buy_order_info(id).unwrap();
    let pi = b.payment_info.as_ref().unwrap();
    assert_eq!(pi.chain_id, 5);
    assert_eq!(pi.tx_proof, vec![1, 2]);
    assert_eq!(pi.validators, vec![10]);
}

#[test]
fn quorum_settles_exactly_once() {
    let (mut m, id) = market_with_reservation();
    m.validate_buy_order(10, id, 5, vec![1, 2], None).unwrap();
    // Threshold is two: the second attestation settles.
    m.validate_buy_order(11, id, 5, vec![1, 2], None).unwrap();
    assert!(m.buy_order_info(id).is_none());
    assert_eq!(m.ledger.balance_amount(7, 2), 100);
    assert_eq!(m.ledger.escrowed_amount(7), 100);
    // The seller accrues the amount net of fees: 1110 - 110.
    assert_eq!(m.seller_receivable(1), Some(1_000));
    assert_eq!(m.exposure_units_of(2), 0);
    assert!(matches!(
        m.events.last().unwrap(),
        Event::BuyOrderFilled { order_id: 0, sell_order_id: 0, units: 100, seller: 1, buyer: 2, .. }
    ));
    // Settlement is final: the third attestation finds no order.
    assert_eq!(
        m.validate_buy_order(12, id, 5, vec![1, 2], None),
        Err(DexError::InvalidOrderId)
    );
    assert_eq!(m.seller_receivable(1), Some(1_000));
}

#[test]
fn off_chain_channel_settles_and_retires() {
    let (mut m, id) = market_with_reservation();
    m.validate_buy_order(10, id, 0, vec![9], Some(vec![42])).unwrap();
    m.validate_buy_order(11, id, 0, vec![9], Some(vec![42])).unwrap();
    // Chain zero retires the credits at once: the buyer never holds them.
    assert_eq!(m.ledger.balance_amount(7, 2), 0);
    assert_eq!(m.ledger.escrowed_amount(7), 100);
    assert_eq!(m.seller_receivable(1), Some(1_000));
    assert!(m.buy_order_info(id).is_none());
}

#[test]
fn attestations_beyond_capacity_are_refused() {
    let (mut m, id) = market_with_reservation();
    // Quorum of five can never be reached with three validator slots.
    m.force_set_min_validations(5).unwrap();
    m.validate_buy_order(10, id, 5, vec![1], None).unwrap();
    m.validate_buy_order(11, id, 5, vec![1], None).unwrap();
    m.validate_buy_order(12, id, 5, vec![1], None).unwrap();
    m.force_add_validator_account(13).unwrap_err();
    m.force_remove_validator_account(10).unwrap();
    m.force_add_validator_account(13).unwrap();
    assert_eq!(
        m.validate_buy_order(13, id, 5, vec![1], None),
        Err(DexError::TooManyValidatorAccounts)
    );
}

#[test]
fn sold_out_listing_settles_then_closes() {
    let (mut m, first) = market_with_reservation();
    // A second buyer takes the remaining 100 units: the listing is sold
    // out and stays on the book, logically closed at zero units.
    m.add_kyc_member(3);
    let second = m.create_buy_order(3, 0, 7, 100, 10_000, 0).unwrap().unwrap();
    assert_eq!(m.order_info(0).unwrap().units, 0);
    // The second reservation settles normally against the closed listing.
    m.validate_buy_order(10, second, 5, vec![4], None).unwrap();
    m.validate_buy_order(11, second, 5, vec![4], None).unwrap();
    assert!(m.buy_order_info(second).is_none());
    assert_eq!(m.ledger.balance_amount(7, 3), 100);
    assert_eq!(m.seller_receivable(1), Some(1_000));
    // The first reservation still references the listing, so it stays.
    assert_eq!(m.order_info(0).unwrap().units, 0);
    // Settling the last referencing reservation removes the sold-out
    // listing: its consuming transition has completed.
    m.validate_buy_order(10, first, 5, vec![5], None).unwrap();
    m.validate_buy_order(11, first, 5, vec![5], None).unwrap();
    assert_eq!(m.seller_receivable(1), Some(2_000));
    assert!(m.order_info(0).is_none());
    assert_eq!(m.ledger.escrowed_amount(7), 0);
    assert_eq!(m.ledger.balance_amount(7, 2), 100);
}

#[test]
fn settlement_failure_rolls_the_attestation_back() {
    let (mut m, id) = market_with_reservation();
    m.validate_buy_order(10, id, 5, vec![1, 2], None).unwrap();
    // The seller cancels the listing out from under the reservation; the
    // settling attestation then fails and must not be recorded.
    m.cancel_sell_order(1, 0).unwrap();
    assert_eq!(
        m.validate_buy_order(11, id, 5, vec![1, 2], None),
        Err(DexError::InvalidOrderId)
    );
    let b = m.buy_order_info(id).unwrap();
    assert_eq!(b.payment_info.as_ref().unwrap().validators, vec![10]);
    assert_eq!(m.ledger.escrowed_amount(7), 100);
    assert!(m.seller_receivable(1).is_none());
}
