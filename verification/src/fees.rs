//! Fee policy: a percentage payment fee rounded up, plus a flat purchase
//! fee, combined with checked arithmetic.

use vstd::prelude::*;
use vstd::arithmetic::div_mod::{
    lemma_div_is_ordered, lemma_div_multiples_vanish_fancy, lemma_fundamental_div_mod,
    lemma_hoist_over_denominator,
};
use crate::types::DexError;

verus! {

/// `rate` percent of `amount`, rounded up.
pub open spec fn percent_mul_ceil_spec(rate: int, amount: int) -> int {
    (amount * rate + 99) / 100
}

/// Computes `rate` percent of `amount`, rounded up, without overflow.
pub fn percent_mul_ceil(rate: u8, amount: u128) -> (r: u128)
    requires
        rate <= 100,
    ensures
        r == percent_mul_ceil_spec(rate as int, amount as int),
        r <= amount,
{
    let whole: u128 = amount / 100;
    let rem: u128 = amount % 100;
    proof {
        let a = amount as int;
        let t = rate as int;
        let w = whole as int;
        let m = rem as int;
        lemma_fundamental_div_mod(a, 100);
        assert(a == 100 * w + m);
        assert(0 <= m < 100);
        assert(a * t == 100 * (w * t) + m * t) by (nonlinear_arith)
            requires a == 100 * w + m;
        assert(w * t <= w * 100 && m * t <= m * 100) by (nonlinear_arith)
            requires w >= 0 && m >= 0 && t <= 100;
        assert(w * 100 <= a);
        // Hoist the whole-part product over the denominator.
        lemma_hoist_over_denominator(m * t + 99, w * t, 100nat);
        assert((m * t + 99) / 100 + w * t == (m * t + 99 + (w * t) * 100) / 100);
        assert(m * t + 99 + (w * t) * 100 == a * t + 99);
        // The rounded-up percentage never exceeds the amount itself.
        assert(a * t <= a * 100) by (nonlinear_arith)
            requires a >= 0 && t <= 100;
        lemma_div_is_ordered(a * t + 99, a * 100 + 99, 100);
        lemma_div_multiples_vanish_fancy(a, 99, 100);
        assert((100 * a + 99) / 100 == a);
        assert(a * 100 + 99 == 100 * a + 99);
        assert(percent_mul_ceil_spec(t, a) <= a);
        // Pieces of the computation stay in range.
        assert((m * t + 99) / 100 >= 0 && w * t >= 0) by (nonlinear_arith)
            requires m >= 0 && t >= 0 && w >= 0;
    }
    let part1: u128 = whole * (rate as u128);
    let part2: u128 = (rem * (rate as u128) + 99) / 100;
    part1 + part2
}

/// The economics of one reservation, computed at creation time.
#[derive(Clone, Copy, PartialEq, Eq, Structural, Debug)]
pub struct OrderCost {
    /// Price of the reserved units before fees.
    pub required: u128,
    /// Percentage payment fee, rounded up.
    pub payment_fee: u128,
    /// Payment fee plus flat purchase fee.
    pub total_fee: u128,
    /// Total fee plus the price of the units.
    pub total_amount: u128,
}

/// What `compute_order_cost` owes on success.
pub open spec fn order_cost_ok(
    c: OrderCost,
    rate: int,
    purchase_fee: int,
    units: int,
    price_per_unit: int,
) -> bool {
    &&& c.required == price_per_unit * units
    &&& c.payment_fee == percent_mul_ceil_spec(rate, c.required as int)
    &&& c.total_fee == c.payment_fee + purchase_fee
    &&& c.total_amount == c.total_fee + c.required
}

/// Computes the full cost of reserving `units` at `price_per_unit`:
/// `required = price × units`, a payment fee of `rate` percent of
/// `required` rounded up, a flat `purchase_fee`, and their total, each
/// addition and the multiplication checked.
pub fn compute_order_cost(
    rate: u8,
    purchase_fee: u128,
    units: u128,
    price_per_unit: u128,
) -> (r: Result<OrderCost, DexError>)
    requires
        rate <= 100,
    ensures
        match r {
            Ok(c) => order_cost_ok(
                c,
                rate as int,
                purchase_fee as int,
                units as int,
                price_per_unit as int,
            ),
            Err(e) => {
                let required = price_per_unit as int * units as int;
                let payment_fee = percent_mul_ceil_spec(rate as int, required);
                ||| (e == DexError::ArithmeticError && required > u128::MAX)
                ||| (e == DexError::OrderUnitsOverflow && required <= u128::MAX
                    && payment_fee + purchase_fee + required > u128::MAX)
            },
        },
        r is Ok <==> {
            let required = price_per_unit as int * units as int;
            let payment_fee = percent_mul_ceil_spec(rate as int, required);
            required <= u128::MAX && payment_fee + purchase_fee + required <= u128::MAX
        },
{
    let required: u128 = match price_per_unit.checked_mul(units) {
        Some(v) => v,
        None => {
            return Err(DexError::ArithmeticError);
        },
    };
    let payment_fee: u128 = percent_mul_ceil(rate, required);
    let total_fee: u128 = match payment_fee.checked_add(purchase_fee) {
        Some(v) => v,
        None => {
            return Err(DexError::OrderUnitsOverflow);
        },
    };
    let total_amount: u128 = match total_fee.checked_add(required) {
        Some(v) => v,
        None => {
            return Err(DexError::OrderUnitsOverflow);
        },
    };
    Ok(OrderCost { required, payment_fee, total_fee, total_amount })
}

} // verus!
