use credit_dex::market::Marketplace;
use credit_dex::types::{Event, MarketConfig, UserLevel};

fn config() -> MarketConfig {
    MarketConfig {
        min_units_to_create_sell_order: 1,
        min_price_per_unit: 1,
        max_payment_fee: 50,
        max_purchase_fee: 1_000,
        max_validators: 3,
        max_tx_proof_len: 64,
        max_open_orders_per_user: 4,
        buy_order_expiry_time: 100,
    }
}

/// A market with one reservation made at tick 0, so expiring at tick 100.
fn market_with_reservation() -> (Marketplace, u128, u128) {
    let mut m = Marketplace::new(config());
    m.register_asset(7, 70, 700);
    m.add_kyc_member(1);
    m.add_kyc_member(2);
    m.mint(7, 1, 1_000).unwrap();
    m.force_set_open_order_allowed_limits(UserLevel::KycLevel1, 10_000).unwrap();
    let order = m.create_sell_order(1, 7, 200, 10).unwrap();
    let id = m.create_buy_order(2, order, 7, 60, 10_000, 0).unwrap().unwrap();
    (m, order, id)
}

#[test]
fn sweep_reclaims_an_expired_reservation() {
    let (mut m, order, id) = market_with_reservation();
    assert_eq!(m.order_info(order).unwrap().units, 140);
    assert!(m.expire_one(101, 10));
    assert!(m.buy_order_info(id).is_none());
    // The units reappear on the originating sell order...
    assert_eq!(m.order_info(order).unwrap().units, 200);
    // ...and leave the buyer's exposure index.
    assert_eq!(m.exposure_units_of(2), 0);
    assert_eq!(m.ledger.escrowed_amount(7), 200);
    assert!(matches!(
        m.events.last().unwrap(),
        Event::BuyOrderExpired { order_id: 0, sell_order_id: 0, units: 60, buyer: 2 }
    ));
}

#[test]
fn sweep_leaves_unexpired_reservations() {
    let (mut m, _, id) = market_with_reservation();
    // The deadline is tick 100 and expiry is strict: not yet at 100.
    assert!(!m.expire_one(100, 10));
    assert!(m.buy_order_info(id).is_some());
}

#[test]
fn sweep_respects_its_budget() {
    let (mut m, _, id) = market_with_reservation();
    assert!(!m.expire_one(101, 0));
    assert!(m.buy_order_info(id).is_some());
    assert!(m.expire_one(101, 1));
    assert!(m.buy_order_info(id).is_none());
}

#[test]
fn sweep_removes_one_reservation_per_pass() {
    let (mut m, order, first) = market_with_reservation();
    let second = m.create_buy_order(2, order, 7, 40, 10_000, 0).unwrap().unwrap();
    assert!(m.expire_one(101, 10));
    assert!(m.buy_order_info(first).is_none());
    assert!(m.buy_order_info(second).is_some());
    assert!(m.expire_one(101, 10));
    assert!(m.buy_order_info(second).is_none());
    assert!(!m.expire_one(101, 10));
    assert_eq!(m.order_info(order).unwrap().units, 200);
}

#[test]
fn sweep_with_vanished_listing_keeps_units_escrowed() {
    let (mut m, order, id) = market_with_reservation();
    m.cancel_sell_order(1, order).unwrap();
    // 140 remaining units were refunded; the reserved 60 stay escrowed.
    assert_eq!(m.ledger.escrowed_amount(7), 60);
    assert!(m.expire_one(101, 10));
    // The reservation is reclaimed, but with the listing gone the credit
    // back has nowhere to land: the units remain in escrow.
    assert!(m.buy_order_info(id).is_none());
    assert_eq!(m.exposure_units_of(2), 0);
    assert_eq!(m.ledger.escrowed_amount(7), 60);
}

#[test]
fn sweep_restores_a_sold_out_listing() {
    let mut m = Marketplace::new(config());
    m.register_asset(7, 70, 700);
    m.add_kyc_member(1);
    m.add_kyc_member(2);
    m.mint(7, 1, 1_000).unwrap();
    m.force_set_open_order_allowed_limits(UserLevel::KycLevel1, 10_000).unwrap();
    let order = m.create_sell_order(1, 7, 200, 10).unwrap();
    let id = m.create_buy_order(2, order, 7, 200, 10_000, 0).unwrap().unwrap();
    // The listing is sold out but stays on the book for its reservation.
    assert_eq!(m.order_info(order).unwrap().units, 0);
    assert!(m.expire_one(101, 10));
    // The expired reservation credits its units back onto the listing.
    assert!(m.buy_order_info(id).is_none());
    assert_eq!(m.order_info(order).unwrap().units, 200);
    assert_eq!(m.ledger.escrowed_amount(7), 200);
    assert_eq!(m.exposure_units_of(2), 0);
}

#[test]
fn sweep_skips_live_reservations_to_reach_expired_ones() {
    let mut m = Marketplace::new(config());
    m.register_asset(7, 70, 700);
    m.add_kyc_member(1);
    m.add_kyc_member(2);
    m.mint(7, 1, 1_000).unwrap();
    m.force_set_open_order_allowed_limits(UserLevel::KycLevel1, 10_000).unwrap();
    let order = m.create_sell_order(1, 7, 200, 10).unwrap();
    // The earlier reservation is made later, so it outlives the second.
    let fresh = m.create_buy_order(2, order, 7, 30, 10_000, 50).unwrap().unwrap();
    let stale = m.create_buy_order(2, order, 7, 20, 10_000, 0).unwrap().unwrap();
    assert!(m.expire_one(120, 10));
    assert!(m.buy_order_info(fresh).is_some());
    assert!(m.buy_order_info(stale).is_none());
    assert_eq!(m.order_info(order).unwrap().units, 170);
}
