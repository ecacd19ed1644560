use credit_dex::market::Marketplace;
use credit_dex::types::{DexError, Event, MarketConfig, UserLevel};

fn config() -> MarketConfig {
    MarketConfig {
        min_units_to_create_sell_order: 1,
        min_price_per_unit: 1,
        max_payment_fee: 50,
        max_purchase_fee: 1_000,
        max_validators: 5,
        max_tx_proof_len: 64,
        max_open_orders_per_user: 2,
        buy_order_expiry_time: 100,
    }
}

fn market() -> (Marketplace, u128) {
    let mut m = Marketplace::new(config());
    m.register_asset(7, 70, 700);
    m.add_kyc_member(1);
    m.add_kyc_member(2);
    m.mint(7, 1, 1_000).unwrap();
    m.force_set_open_order_allowed_limits(UserLevel::KycLevel1, 150).unwrap();
    let order = m.create_sell_order(1, 7, 200, 10).unwrap();
    (m, order)
}

#[test]
fn reserve_decrements_listing_and_indexes_buyer() {
    let (mut m, order) = market();
    let id = m.create_buy_order(2, order, 7, 100, 10_000, 5).unwrap().unwrap();
    assert_eq!(id, 0);
    assert_eq!(m.order_info(order).unwrap().units, 100);
    let b = m.buy_order_info(id).unwrap();
    assert_eq!(b.order_id, order);
    assert_eq!(b.buyer, 2);
    assert_eq!(b.units, 100);
    assert_eq!(b.expiry_time, 105);
    assert!(b.payment_info.is_none());
    assert_eq!(m.exposure_units_of(2), 100);
    let open = m.open_orders_of(2);
    assert_eq!(open.len(), 1);
    assert_eq!((open[0].id, open[0].units), (id, 100));
    // Escrow is untouched by a reservation: units stay escrowed.
    assert_eq!(m.ledger.escrowed_amount(7), 200);
    assert!(matches!(
        m.events.last().unwrap(),
        Event::BuyOrderCreated { order_id: 0, sell_order_id: 0, units: 100, seller: 1, buyer: 2, .. }
    ));
}

#[test]
fn reserve_zero_units_is_a_noop() {
    let (mut m, order) = market();
    assert_eq!(m.create_buy_order(2, order, 7, 0, 0, 5), Ok(None));
    // The no-op comes before every other check: an unapproved buyer and an
    // unknown order are not even looked at when no units are asked for.
    assert_eq!(m.create_buy_order(9, order, 7, 0, 0, 5), Ok(None));
    assert_eq!(m.create_buy_order(9, 44, 7, 0, 0, 5), Ok(None));
    assert_eq!(m.buy_order_count, 0);
    assert_eq!(m.order_info(order).unwrap().units, 200);
}

#[test]
fn full_reservation_keeps_the_closed_listing_on_the_book() {
    let (mut m, order) = market();
    // The tier limit of 150 caps one buyer; use a second buyer for the rest.
    m.add_kyc_member(3);
    let first = m.create_buy_order(2, order, 7, 150, 10_000, 5).unwrap().unwrap();
    let second = m.create_buy_order(3, order, 7, 50, 10_000, 5).unwrap().unwrap();
    // The second reservation took the last units: the listing is logically
    // closed but stays recorded while the reservations still reference it.
    assert_eq!(m.order_info(order).unwrap().units, 0);
    assert!(m.buy_order_info(first).is_some());
    assert!(m.buy_order_info(second).is_some());
    // All 200 units stay escrowed for the pending reservations, and no
    // further units can be reserved from the closed listing.
    assert_eq!(m.ledger.escrowed_amount(7), 200);
    assert_eq!(
        m.create_buy_order(3, order, 7, 1, 10_000, 5),
        Err(DexError::OrderUnitsOverflow)
    );
}

#[test]
fn reserve_checks_identity_and_order() {
    let (mut m, order) = market();
    assert_eq!(
        m.create_buy_order(9, order, 7, 10, 10_000, 5),
        Err(DexError::KYCAuthorisationFailed)
    );
    assert_eq!(
        m.create_buy_order(2, 44, 7, 10, 10_000, 5),
        Err(DexError::InvalidOrderId)
    );
    assert_eq!(
        m.create_buy_order(2, order, 8, 10, 10_000, 5),
        Err(DexError::InvalidAssetId)
    );
    assert_eq!(
        m.create_buy_order(1, order, 7, 10, 10_000, 5),
        Err(DexError::SellerAndBuyerCannotBeSame)
    );
    assert_eq!(
        m.create_buy_order(2, order, 7, 201, 10_000, 5),
        Err(DexError::OrderUnitsOverflow)
    );
}

#[test]
fn reserve_needs_a_configured_tier_limit() {
    let mut m = Marketplace::new(config());
    m.register_asset(7, 70, 700);
    m.add_kyc_member(1);
    m.add_kyc_member(2);
    m.mint(7, 1, 1_000).unwrap();
    let order = m.create_sell_order(1, 7, 200, 10).unwrap();
    assert_eq!(
        m.create_buy_order(2, order, 7, 10, 10_000, 5),
        Err(DexError::UserOpenOrderUnitsLimtNotFound)
    );
}

#[test]
fn reserve_enforces_the_tier_limit() {
    let (mut m, order) = market();
    m.create_buy_order(2, order, 7, 100, 10_000, 5).unwrap();
    // 100 of the 150-unit limit used: 51 more must be refused, 50 accepted.
    assert_eq!(
        m.create_buy_order(2, order, 7, 51, 10_000, 5),
        Err(DexError::UserOpenOrderUnitsAllowedExceeded)
    );
    m.create_buy_order(2, order, 7, 50, 10_000, 5).unwrap();
    assert_eq!(m.exposure_units_of(2), 150);
}

#[test]
fn reserve_enforces_index_capacity() {
    let (mut m, order) = market();
    m.create_buy_order(2, order, 7, 10, 10_000, 5).unwrap();
    m.create_buy_order(2, order, 7, 10, 10_000, 5).unwrap();
    assert_eq!(
        m.create_buy_order(2, order, 7, 10, 10_000, 5),
        Err(DexError::OpenOrderLimitExceeded)
    );
}

#[test]
fn reserve_price_is_frozen_at_reservation() {
    let (mut m, order) = market();
    let id = m.create_buy_order(2, order, 7, 10, 10_000, 5).unwrap().unwrap();
    assert_eq!(m.buy_order_info(id).unwrap().price_per_unit, 10);
}
