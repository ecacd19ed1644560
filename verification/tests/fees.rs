use credit_dex::fees::{compute_order_cost, percent_mul_ceil};
use credit_dex::market::Marketplace;
use credit_dex::types::{DexError, MarketConfig};

fn config() -> MarketConfig {
    MarketConfig {
        min_units_to_create_sell_order: 1,
        min_price_per_unit: 1,
        max_payment_fee: 100,
        max_purchase_fee: 1_000,
        max_validators: 5,
        max_tx_proof_len: 64,
        max_open_orders_per_user: 4,
        buy_order_expiry_time: 100,
    }
}

#[test]
fn percentage_rounds_up() {
    assert_eq!(percent_mul_ceil(10, 1_000), 100);
    assert_eq!(percent_mul_ceil(10, 5), 1);
    assert_eq!(percent_mul_ceil(10, 0), 0);
    assert_eq!(percent_mul_ceil(0, 12_345), 0);
    assert_eq!(percent_mul_ceil(100, 12_345), 12_345);
    assert_eq!(percent_mul_ceil(33, 100), 33);
    assert_eq!(percent_mul_ceil(33, 101), 34);
    assert_eq!(percent_mul_ceil(7, u128::MAX), u128::MAX / 100 * 7 + (u128::MAX % 100 * 7 + 99) / 100);
}

#[test]
fn order_cost_breakdown_is_exact() {
    let c = compute_order_cost(10, 10, 100, 10).unwrap();
    assert_eq!(c.required, 1_000);
    assert_eq!(c.payment_fee, 100);
    assert_eq!(c.total_fee, 110);
    assert_eq!(c.total_amount, 1_110);
}

#[test]
fn order_cost_reports_overflow() {
    assert_eq!(
        compute_order_cost(10, 10, u128::MAX, 2),
        Err(DexError::ArithmeticError)
    );
    assert_eq!(
        compute_order_cost(0, u128::MAX, 1, 1),
        Err(DexError::OrderUnitsOverflow)
    );
}

#[test]
fn fee_determinism_through_reserve() {
    let mut m = Marketplace::new(config());
    m.register_asset(7, 70, 700);
    m.add_kyc_member(1);
    m.add_kyc_member(2);
    m.mint(7, 1, 1_000).unwrap();
    m.force_set_payment_fee(10).unwrap();
    m.force_set_purchase_fee(10).unwrap();
    m.force_set_open_order_allowed_limits(
        credit_dex::types::UserLevel::KycLevel1,
        10_000,
    )
    .unwrap();
    let order = m.create_sell_order(1, 7, 200, 10).unwrap();

    // A fee cap one unit under the exact total fee must be refused...
    assert_eq!(
        m.create_buy_order(2, order, 7, 100, 109, 0),
        Err(DexError::FeeExceedsUserLimit)
    );
    // ...and the exact total fee accepted, with the documented breakdown.
    let id = m.create_buy_order(2, order, 7, 100, 110, 0).unwrap().unwrap();
    let b = m.buy_order_info(id).unwrap();
    assert_eq!(b.total_fee, 110);
    assert_eq!(b.total_amount, 1_110);
    assert_eq!(b.price_per_unit, 10);
    assert_eq!(b.units, 100);
}
