use credit_dex::market::Marketplace;
use credit_dex::types::{DexError, Event, MarketConfig};

fn config() -> MarketConfig {
    MarketConfig {
        min_units_to_create_sell_order: 10,
        min_price_per_unit: 2,
        max_payment_fee: 50,
        max_purchase_fee: 1000,
        max_validators: 5,
        max_tx_proof_len: 64,
        max_open_orders_per_user: 4,
        buy_order_expiry_time: 100,
    }
}

fn market_with_seller() -> Marketplace {
    let mut m = Marketplace::new(config());
    m.register_asset(7, 70, 700);
    m.add_kyc_member(1);
    m.mint(7, 1, 1_000).unwrap();
    m
}

#[test]
fn list_moves_units_into_escrow() {
    let mut m = market_with_seller();
    let id = m.create_sell_order(1, 7, 100, 5).unwrap();
    assert_eq!(id, 0);
    assert_eq!(m.order_count, 1);
    assert_eq!(m.ledger.balance_amount(7, 1), 900);
    assert_eq!(m.ledger.escrowed_amount(7), 100);
    let o = m.order_info(id).unwrap();
    assert_eq!(o.owner, 1);
    assert_eq!(o.units, 100);
    assert_eq!(o.price_per_unit, 5);
    assert_eq!(o.asset_id, 7);
    assert!(matches!(
        m.events.last().unwrap(),
        Event::SellOrderCreated { order_id: 0, asset_id: 7, project_id: 70, group_id: 700, units: 100, price_per_unit: 5, owner: 1 }
    ));
}

#[test]
fn list_requires_kyc() {
    let mut m = market_with_seller();
    assert_eq!(
        m.create_sell_order(2, 7, 100, 5),
        Err(DexError::KYCAuthorisationFailed)
    );
    assert_eq!(m.order_count, 0);
}

#[test]
fn list_rejects_unknown_asset() {
    let mut m = market_with_seller();
    assert_eq!(
        m.create_sell_order(1, 9, 100, 5),
        Err(DexError::AssetNotPermitted)
    );
}

#[test]
fn list_enforces_minimums() {
    let mut m = market_with_seller();
    assert_eq!(
        m.create_sell_order(1, 7, 9, 5),
        Err(DexError::BelowMinimumUnits)
    );
    assert_eq!(
        m.create_sell_order(1, 7, 100, 1),
        Err(DexError::BelowMinimumPrice)
    );
}

#[test]
fn list_rejects_uncovered_units() {
    let mut m = market_with_seller();
    assert_eq!(
        m.create_sell_order(1, 7, 1_001, 5),
        Err(DexError::InsufficientBalance)
    );
    assert_eq!(m.ledger.balance_amount(7, 1), 1_000);
    assert_eq!(m.ledger.escrowed_amount(7), 0);
}

#[test]
fn cancel_roundtrip_restores_balance() {
    let mut m = market_with_seller();
    let id = m.create_sell_order(1, 7, 100, 5).unwrap();
    assert_eq!(m.ledger.balance_amount(7, 1), 900);
    m.cancel_sell_order(1, id).unwrap();
    assert_eq!(m.ledger.balance_amount(7, 1), 1_000);
    assert_eq!(m.ledger.escrowed_amount(7), 0);
    assert!(m.order_info(id).is_none());
    assert!(matches!(
        m.events.last().unwrap(),
        Event::SellOrderCancelled { order_id: 0, seller: 1 }
    ));
}

#[test]
fn cancel_unknown_order_fails() {
    let mut m = market_with_seller();
    assert_eq!(m.cancel_sell_order(1, 5), Err(DexError::InvalidOrderId));
}

#[test]
fn cancel_by_stranger_fails() {
    let mut m = market_with_seller();
    let id = m.create_sell_order(1, 7, 100, 5).unwrap();
    assert_eq!(m.cancel_sell_order(2, id), Err(DexError::InvalidOrderOwner));
    assert!(m.order_info(id).is_some());
    assert_eq!(m.ledger.escrowed_amount(7), 100);
}

#[test]
fn order_ids_are_monotonic() {
    let mut m = market_with_seller();
    let a = m.create_sell_order(1, 7, 100, 5).unwrap();
    let b = m.create_sell_order(1, 7, 200, 5).unwrap();
    m.cancel_sell_order(1, a).unwrap();
    let c = m.create_sell_order(1, 7, 300, 5).unwrap();
    assert_eq!((a, b, c), (0, 1, 2));
    assert_eq!(m.order_info(1).unwrap().units, 200);
    assert_eq!(m.order_info(2).unwrap().units, 300);
}
