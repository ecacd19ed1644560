use credit_dex::market::Marketplace;
use credit_dex::types::{DexError, MarketConfig, UserLevel};

fn config() -> MarketConfig {
    MarketConfig {
        min_units_to_create_sell_order: 1,
        min_price_per_unit: 1,
        max_payment_fee: 50,
        max_purchase_fee: 1_000,
        max_validators: 3,
        max_tx_proof_len: 64,
        max_open_orders_per_user: 4,
        buy_order_expiry_time: 100,
    }
}

fn market() -> Marketplace {
    let mut m = Marketplace::new(config());
    m.register_asset(7, 70, 700);
    m.add_kyc_member(1);
    m.add_kyc_member(2);
    m.force_set_open_order_allowed_limits(UserLevel::KycLevel1, u128::MAX).unwrap();
    m
}

#[test]
fn reserve_near_the_end_of_time_fails_cleanly() {
    let mut m = market();
    m.mint(7, 1, 100).unwrap();
    let order = m.create_sell_order(1, 7, 100, 10).unwrap();
    // The expiry deadline would overflow the tick counter.
    assert_eq!(
        m.create_buy_order(2, order, 7, 10, 10_000, u64::MAX),
        Err(DexError::OrderIdOverflow)
    );
    assert_eq!(m.buy_order_count, 0);
}

#[test]
fn reserve_at_an_astronomical_price_fails_cleanly() {
    let mut m = market();
    m.mint(7, 1, 100).unwrap();
    let order = m.create_sell_order(1, 7, 100, u128::MAX).unwrap();
    // The required currency amount cannot be represented.
    assert_eq!(
        m.create_buy_order(2, order, 7, 2, u128::MAX, 0),
        Err(DexError::ArithmeticError)
    );
    // A single unit at that price still fits, with no payment fee set.
    let id = m.create_buy_order(2, order, 7, 1, 0, 0).unwrap().unwrap();
    assert_eq!(m.buy_order_info(id).unwrap().total_amount, u128::MAX);
}

#[test]
fn threshold_of_one_still_records_before_settling() {
    let mut m = market();
    m.mint(7, 1, 100).unwrap();
    m.force_add_validator_account(10).unwrap();
    m.force_add_validator_account(11).unwrap();
    m.force_set_min_validations(1).unwrap();
    let order = m.create_sell_order(1, 7, 100, 10).unwrap();
    let id = m.create_buy_order(2, order, 7, 10, 10_000, 0).unwrap().unwrap();
    // The first attestation only creates the record, even at threshold one;
    // the next matching attestation settles.
    m.validate_buy_order(10, id, 5, vec![1], None).unwrap();
    assert!(m.buy_order_info(id).is_some());
    m.validate_buy_order(11, id, 5, vec![1], None).unwrap();
    assert!(m.buy_order_info(id).is_none());
    assert_eq!(m.ledger.balance_amount(7, 2), 10);
}

#[test]
fn receivables_accrue_across_settlements() {
    let mut m = market();
    m.mint(7, 1, 1_000).unwrap();
    m.force_add_validator_account(10).unwrap();
    m.force_add_validator_account(11).unwrap();
    m.force_set_purchase_fee(7).unwrap();
    let order = m.create_sell_order(1, 7, 100, 10).unwrap();
    let first = m.create_buy_order(2, order, 7, 10, 10_000, 0).unwrap().unwrap();
    let second = m.create_buy_order(2, order, 7, 20, 10_000, 0).unwrap().unwrap();
    m.validate_buy_order(10, first, 5, vec![1], None).unwrap();
    m.validate_buy_order(11, first, 5, vec![1], None).unwrap();
    assert_eq!(m.seller_receivable(1), Some(100));
    m.validate_buy_order(10, second, 5, vec![2], None).unwrap();
    m.validate_buy_order(11, second, 5, vec![2], None).unwrap();
    // Each fill adds price times units, net of the flat fee paid upfront.
    assert_eq!(m.seller_receivable(1), Some(300));
    assert_eq!(m.ledger.balance_amount(7, 2), 30);
}

#[test]
fn distinct_assets_keep_separate_escrow_pools() {
    let mut m = market();
    m.register_asset(8, 80, 800);
    m.mint(7, 1, 100).unwrap();
    m.mint(8, 1, 50).unwrap();
    m.create_sell_order(1, 7, 100, 10).unwrap();
    m.create_sell_order(1, 8, 50, 3).unwrap();
    assert_eq!(m.ledger.escrowed_amount(7), 100);
    assert_eq!(m.ledger.escrowed_amount(8), 50);
    m.cancel_sell_order(1, 1).unwrap();
    assert_eq!(m.ledger.escrowed_amount(7), 100);
    assert_eq!(m.ledger.escrowed_amount(8), 0);
    assert_eq!(m.ledger.balance_amount(8, 1), 50);
}
