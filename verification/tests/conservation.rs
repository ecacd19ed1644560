use credit_dex::market::Marketplace;
use credit_dex::types::{MarketConfig, UserLevel};

fn config() -> MarketConfig {
    MarketConfig {
        min_units_to_create_sell_order: 1,
        min_price_per_unit: 1,
        max_payment_fee: 50,
        max_purchase_fee: 1_000,
        max_validators: 3,
        max_tx_proof_len: 64,
        max_open_orders_per_user: 8,
        buy_order_expiry_time: 100,
    }
}

/// Escrowed units of asset 7, minus listed and pending units: the balance
/// the library proves stays at zero across every call.
fn surplus(m: &Marketplace) -> i128 {
    let listed: u128 = m.orders.iter().filter(|o| o.asset_id == 7).map(|o| o.units).sum();
    let pending: u128 = m.buy_orders.iter().filter(|b| b.asset_id == 7).map(|b| b.units).sum();
    m.ledger.escrowed_amount(7) as i128 - listed as i128 - pending as i128
}

#[test]
fn escrow_matches_the_books_at_every_step() {
    let mut m = Marketplace::new(config());
    m.register_asset(7, 70, 700);
    m.add_kyc_member(1);
    m.add_kyc_member(2);
    m.mint(7, 1, 1_000).unwrap();
    m.force_set_open_order_allowed_limits(UserLevel::KycLevel1, 10_000).unwrap();
    m.force_add_validator_account(10).unwrap();
    m.force_add_validator_account(11).unwrap();
    assert_eq!(surplus(&m), 0);

    let a = m.create_sell_order(1, 7, 300, 10).unwrap();
    let b = m.create_sell_order(1, 7, 200, 4).unwrap();
    assert_eq!(surplus(&m), 0);

    let r1 = m.create_buy_order(2, a, 7, 120, 10_000, 0).unwrap().unwrap();
    let _r2 = m.create_buy_order(2, b, 7, 50, 10_000, 0).unwrap().unwrap();
    assert_eq!(surplus(&m), 0);

    m.cancel_sell_order(1, b).unwrap();
    assert_eq!(surplus(&m), 0);

    m.validate_buy_order(10, r1, 5, vec![1], None).unwrap();
    m.validate_buy_order(11, r1, 5, vec![1], None).unwrap();
    assert_eq!(surplus(&m), 0);

    // The reservation against the cancelled listing expires: its units can
    // no longer be credited back, so they stay in escrow as surplus.
    assert!(m.expire_one(200, 10));
    assert_eq!(surplus(&m), 50);

    m.cancel_sell_order(1, a).unwrap();
    assert_eq!(surplus(&m), 50);
    assert_eq!(m.ledger.escrowed_amount(7), 50);
    assert_eq!(m.ledger.balance_amount(7, 2), 120);
    assert_eq!(m.ledger.balance_amount(7, 1), 830);
}
