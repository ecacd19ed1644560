//! Reserving units against a sell order, with fee computation and
//! per-buyer exposure limits.

use vstd::prelude::*;
use crate::fees::{compute_order_cost, percent_mul_ceil_spec};
use crate::market::{
    buy_id_of, buy_units_contrib, expo_buyer_of, open_units, open_units_contrib,
    order_units_contrib, sell_id_of, Marketplace,
};
use crate::sums::{
    find_by, key_pred, lemma_find_key_push, lemma_find_key_remove, lemma_find_key_update,
    lemma_sum_by_push, lemma_sum_by_remove, lemma_sum_by_update, unique_keys,
};
use crate::types::{
    AccountId, AssetId, BuyOrder, BuyOrderId, DexError, Event, ExposureEntry, OpenOrder, OrderId,
    SellOrder, Tick,
};

verus! {

impl Marketplace {
    /// The exact outcome of `create_buy_order`: the checks in the order
    /// they are made; on success the allocated buy-order identifier, or
    /// nothing for the zero-unit no-op.
    pub open spec fn reserve_result(
        self,
        buyer: AccountId,
        order_id: OrderId,
        asset_id: AssetId,
        units: u128,
        max_fee: u128,
        now: Tick,
    ) -> Result<Option<BuyOrderId>, DexError> {
        if units == 0 {
            Ok(None)
        } else if !self.is_kyc_approved(buyer) {
            Err(DexError::KYCAuthorisationFailed)
        } else {
            match self.sell_order(order_id) {
                None => Err(DexError::InvalidOrderId),
                Some(o) => {
                    if asset_id != o.asset_id {
                        Err(DexError::InvalidAssetId)
                    } else if buyer == o.owner {
                        Err(DexError::SellerAndBuyerCannotBeSame)
                    } else if units > o.units {
                        Err(DexError::OrderUnitsOverflow)
                    } else if self.project_details(asset_id) is None {
                        Err(DexError::AssetNotPermitted)
                    } else {
                        let required = o.price_per_unit as int * units as int;
                        let payment_fee = percent_mul_ceil_spec(
                            self.payment_fee_rate as int,
                            required,
                        );
                        let total_fee = payment_fee + self.purchase_fee;
                        if required > u128::MAX {
                            Err(DexError::ArithmeticError)
                        } else if total_fee > u128::MAX || total_fee + required > u128::MAX {
                            Err(DexError::OrderUnitsOverflow)
                        } else if total_fee > max_fee {
                            Err(DexError::FeeExceedsUserLimit)
                        } else if self.buy_order_count + 1 > u128::MAX {
                            Err(DexError::OrderIdOverflow)
                        } else if now + self.config.buy_order_expiry_time > u64::MAX {
                            Err(DexError::OrderIdOverflow)
                        } else {
                            match self.open_order_units_allowed {
                                None => Err(DexError::UserOpenOrderUnitsLimtNotFound),
                                Some(limit) => {
                                    if self.exposure_units(buyer) + units > limit {
                                        Err(DexError::UserOpenOrderUnitsAllowedExceeded)
                                    } else if self.exposure_list(buyer).len()
                                        >= self.config.max_open_orders_per_user {
                                        Err(DexError::OpenOrderLimitExceeded)
                                    } else {
                                        Ok(Some(self.buy_order_count))
                                    }
                                },
                            }
                        }
                    }
                },
            }
        }
    }

    /// The buy order that a successful reservation records.
    pub open spec fn reserved_buy_order(
        self,
        buyer: AccountId,
        order_id: OrderId,
        units: u128,
        now: Tick,
    ) -> BuyOrder {
        let o = self.sell_order(order_id)->Some_0;
        let required = o.price_per_unit as int * units as int;
        let payment_fee = percent_mul_ceil_spec(self.payment_fee_rate as int, required);
        BuyOrder {
            id: self.buy_order_count,
            order_id,
            buyer,
            units,
            price_per_unit: o.price_per_unit,
            asset_id: o.asset_id,
            total_fee: (payment_fee + self.purchase_fee) as u128,
            total_amount: (payment_fee + self.purchase_fee + required) as u128,
            expiry_time: (now + self.config.buy_order_expiry_time) as u64,
            payment_info: None,
        }
    }

    /// Reserves `units` against sell order `order_id` at the current tick
    /// `now`: computes the fees, caps them by the buyer's `max_fee`,
    /// enforces the buyer's tier limit and index capacity, decrements the
    /// sell order, records the buy order with an expiry deadline, indexes
    /// it under the buyer, and deposits a reservation notification. A
    /// reservation of the last listed units leaves the record in place at
    /// zero units: the listing is then logically closed, and settlement of
    /// the last reservation referencing it removes it. Reserving zero
    /// units succeeds without any effect, before any other check. Any
    /// refused check fails the whole call with no effect.
    pub fn create_buy_order(
        &mut self,
        buyer: AccountId,
        order_id: OrderId,
        asset_id: AssetId,
        units: u128,
        max_fee: u128,
        now: Tick,
    ) -> (r: Result<Option<BuyOrderId>, DexError>)
        requires
            old(self).wf(),
        ensures
            final(self).wf(),
            old(self).balanced() ==> final(self).balanced(),
            r == old(self).reserve_result(buyer, order_id, asset_id, units, max_fee, now),
            r is Err ==> *final(self) == *old(self),
            r == Ok::<Option<BuyOrderId>, DexError>(None) ==> *final(self) == *old(self),
            r matches Ok(Some(id)) ==> ({
                let o = old(self).sell_order(order_id)->Some_0;
                let b = old(self).reserved_buy_order(buyer, order_id, units, now);
                let pg = old(self).project_details(asset_id)->Some_0;
                &&& id == old(self).buy_order_count
                &&& *final(self) == (Marketplace {
                    buy_order_count: final(self).buy_order_count,
                    orders: final(self).orders,
                    buy_orders: final(self).buy_orders,
                    exposure: final(self).exposure,
                    events: final(self).events,
                    ..*old(self)
                })
                &&& final(self).buy_order_count == id + 1
                &&& final(self).sell_order(order_id) == Some(
                    (SellOrder { units: (o.units - units) as u128, ..o }),
                )
                &&& forall|x: OrderId|
                    x != order_id ==> #[trigger] final(self).sell_order(x) == old(self).sell_order(
                        x,
                    )
                &&& final(self).buy_orders@ == old(self).buy_orders@.push(b)
                &&& final(self).buy_order(id) == Some(b)
                &&& forall|x: BuyOrderId|
                    x != id ==> #[trigger] final(self).buy_order(x) == old(self).buy_order(x)
                &&& final(self).exposure_list(buyer) == old(self).exposure_list(buyer).push(
                    OpenOrder { id, units },
                )
                &&& final(self).exposure_units(buyer) == old(self).exposure_units(buyer) + units
                &&& final(self).exposure_units(buyer)
                    <= old(self).open_order_units_allowed->Some_0
                &&& forall|c: AccountId|
                    c != buyer ==> #[trigger] final(self).exposure_list(c) == old(
                        self,
                    ).exposure_list(c)
                &&& final(self).events@ == old(self).events@.push(
                    Event::BuyOrderCreated {
                        order_id: id,
                        sell_order_id: order_id,
                        units,
                        project_id: pg.0,
                        group_id: pg.1,
                        price_per_unit: o.price_per_unit,
                        fees_paid: b.total_fee,
                        total_amount: b.total_amount,
                        seller: o.owner,
                        buyer,
                    },
                )
            }),
    {
        if units == 0 {
            return Ok(None);
        }
        if !Marketplace::contains_account(&self.kyc_members, buyer) {
            return Err(DexError::KYCAuthorisationFailed);
        }
        let idx = match self.find_sell_index(order_id) {
            Some(i) => i,
            None => {
                proof {
                    self.lemma_sell_absent(order_id);
                }
                return Err(DexError::InvalidOrderId);
            },
        };
        proof {
            self.lemma_sell_at(idx as int);
        }
        let o = self.orders[idx];
        if asset_id != o.asset_id {
            return Err(DexError::InvalidAssetId);
        }
        if buyer == o.owner {
            return Err(DexError::SellerAndBuyerCannotBeSame);
        }
        if units > o.units {
            return Err(DexError::OrderUnitsOverflow);
        }
        let (project_id, group_id) = match self.project_details_lookup(asset_id) {
            Some(pg) => pg,
            None => {
                return Err(DexError::AssetNotPermitted);
            },
        };
        let cost = match compute_order_cost(
            self.payment_fee_rate,
            self.purchase_fee,
            units,
            o.price_per_unit,
        ) {
            Ok(c) => c,
            Err(e) => {
                return Err(e);
            },
        };
        if cost.total_fee > max_fee {
            return Err(DexError::FeeExceedsUserLimit);
        }
        let buy_order_id = self.buy_order_count;
        let next = match buy_order_id.checked_add(1) {
            Some(n) => n,
            None => {
                return Err(DexError::OrderIdOverflow);
            },
        };
        let expiry_time = match now.checked_add(self.config.buy_order_expiry_time) {
            Some(t) => t,
            None => {
                return Err(DexError::OrderIdOverflow);
            },
        };
        let limit = match self.open_order_units_allowed {
            Some(l) => l,
            None => {
                return Err(DexError::UserOpenOrderUnitsLimtNotFound);
            },
        };
        let expo_idx = self.find_expo_index(buyer);
        let current_open_units: u128;
        let current_open_len: usize;
        match expo_idx {
            Some(i) => {
                proof {
                    self.lemma_expo_at(i as int);
                }
                current_open_units = Marketplace::sum_open_units(&self.exposure[i].open);
                current_open_len = self.exposure[i].open.len();
            },
            None => {
                proof {
                    self.lemma_expo_absent(buyer);
                }
                current_open_units = 0;
                current_open_len = 0;
            },
        }
        match current_open_units.checked_add(units) {
            None => {
                return Err(DexError::UserOpenOrderUnitsAllowedExceeded);
            },
            Some(t) => {
                if t > limit {
                    return Err(DexError::UserOpenOrderUnitsAllowedExceeded);
                }
            },
        }
        if current_open_len >= self.config.max_open_orders_per_user {
            return Err(DexError::OpenOrderLimitExceeded);
        }

        // All checks passed: apply the whole transition.
        let ghost pre = *self;
        self.buy_order_count = next;
        let updated_order = SellOrder {
            id: o.id,
            owner: o.owner,
            units: o.units - units,
            price_per_unit: o.price_per_unit,
            asset_id: o.asset_id,
        };
        self.orders[idx] = updated_order;
        let open_item = OpenOrder { id: buy_order_id, units };
        match expo_idx {
            Some(i) => {
                let mut entry = self.exposure.remove(i);
                entry.open.push(open_item);
                self.exposure.insert(i, entry);
                proof {
                    assert(self.exposure@ =~= pre.exposure@.update(
                        i as int,
                        self.exposure@[i as int],
                    ));
                }
            },
            None => {
                let mut open: Vec<OpenOrder> = Vec::new();
                open.push(open_item);
                let entry = ExposureEntry { buyer, open };
                self.exposure.push(entry);
            },
        }
        let b = BuyOrder {
            id: buy_order_id,
            order_id,
            buyer,
            units,
            price_per_unit: o.price_per_unit,
            asset_id,
            total_fee: cost.total_fee,
            total_amount: cost.total_amount,
            expiry_time,
            payment_info: None,
        };
        self.buy_orders.push(b);
        self.events.push(
            Event::BuyOrderCreated {
                order_id: buy_order_id,
                sell_order_id: order_id,
                units,
                project_id,
                group_id,
                price_per_unit: o.price_per_unit,
                fees_paid: cost.total_fee,
                total_amount: cost.total_amount,
                seller: o.owner,
                buyer,
            },
        );
        proof {
            let post = *self;
            assert(b == pre.reserved_buy_order(buyer, order_id, units, now));

            // Sell-order book: one order updated in place, same identifier.
            assert(post.orders@ == pre.orders@.update(idx as int, updated_order));
            lemma_find_key_update(pre.orders@, sell_id_of(), idx as int, updated_order);
            assert(sell_id_of()(updated_order) == order_id);
            assert forall|i: int| 0 <= i < post.orders@.len()
                implies (#[trigger] post.orders@[i]).id < post.order_count by {
                if i != idx as int {
                    assert(post.orders@[i] == pre.orders@[i]);
                }
            }

            // Buy-order book: one fresh order appended.
            assert(post.buy_orders@ == pre.buy_orders@.push(b));
            assert forall|j: int| 0 <= j < pre.buy_orders@.len()
                implies #[trigger] buy_id_of()(pre.buy_orders@[j]) != buy_id_of()(b) by {
                assert(pre.buy_orders@[j].id < pre.buy_order_count);
            }
            lemma_find_key_push(pre.buy_orders@, buy_id_of(), b);
            assert(buy_id_of()(b) == buy_order_id);
            assert forall|i: int| 0 <= i < post.buy_orders@.len() implies {
                let bb = #[trigger] post.buy_orders@[i];
                &&& bb.id < post.buy_order_count
                &&& bb.units >= 1
                &&& crate::market::payment_info_wf(bb, post.config)
                &&& bb.order_id < post.order_count
                &&& (post.sell_order(bb.order_id) matches Some(so) ==> so.asset_id
                    == bb.asset_id)
            } by {
                let bb = post.buy_orders@[i];
                if i < pre.buy_orders@.len() {
                    assert(bb == pre.buy_orders@[i]);
                } else {
                    assert(bb == b);
                    assert(bb.order_id == o.id && o.id < pre.order_count);
                }
                if bb.order_id == order_id {
                    assert(post.sell_order(order_id) == Some(updated_order));
                    assert(pre.sell_order(bb.order_id) == Some(pre.orders@[idx as int]));
                    assert(pre.orders@[idx as int].asset_id == bb.asset_id);
                } else {
                    assert(find_by(
                        pre.orders@.update(idx as int, updated_order),
                        key_pred(sell_id_of(), bb.order_id),
                    ) == find_by(pre.orders@, key_pred(sell_id_of(), bb.order_id)));
                }
            }

            // Exposure index: the buyer's list grew by the new reservation.
            let item = OpenOrder { id: buy_order_id, units };
            match expo_idx {
                Some(i) => {
                    let e0 = pre.exposure@[i as int];
                    let e1 = post.exposure@[i as int];
                    assert(e1.buyer == buyer && e1.open@ == e0.open@.push(item));
                    lemma_find_key_update(pre.exposure@, expo_buyer_of(), i as int, e1);
                    assert(expo_buyer_of()(e1) == buyer);
                    lemma_sum_by_push(e0.open@, open_units_contrib(), item);
                    pre.lemma_expo_at(i as int);
                    post.lemma_expo_at(i as int);
                    assert forall|ii: int| 0 <= ii < post.exposure@.len()
                        implies crate::market::exposure_entry_wf(
                        #[trigger] post.exposure@[ii],
                        post.config,
                    ) by {
                        if ii != i as int {
                            assert(post.exposure@[ii] == pre.exposure@[ii]);
                        } else {
                            assert forall|k: int, l: int| 0 <= k < l < e1.open@.len()
                                implies #[trigger] crate::market::open_id_of()(e1.open@[k])
                                    != #[trigger] crate::market::open_id_of()(e1.open@[l]) by {
                                if l < e0.open@.len() {
                                    assert(e1.open@[k] == e0.open@[k] && e1.open@[l]
                                        == e0.open@[l]);
                                } else {
                                    assert(e1.open@[l] == item);
                                    assert(e0.open@[k].id < pre.buy_order_count);
                                }
                            }
                        }
                    }
                    assert forall|i2: int, k: int|
                        0 <= i2 < post.exposure@.len() && 0 <= k < post.exposure@[i2].open@.len()
                        implies (#[trigger] post.exposure@[i2].open@[k]).id
                            < post.buy_order_count by {
                        if i2 != i as int {
                            assert(post.exposure@[i2] == pre.exposure@[i2]);
                            assert(pre.exposure@[i2].open@[k].id < pre.buy_order_count);
                        } else {
                            if k < e0.open@.len() {
                                assert(e1.open@[k] == e0.open@[k]);
                                assert(pre.exposure@[i2].open@[k].id < pre.buy_order_count);
                            } else {
                                assert(e1.open@[k] == item);
                            }
                        }
                    }
                },
                None => {
                    let e1 = post.exposure@.last();
                    assert(e1.buyer == buyer && e1.open@ =~= Seq::empty().push(item));
                    assert(post.exposure@ == pre.exposure@.push(e1));
                    assert forall|j: int| 0 <= j < pre.exposure@.len()
                        implies #[trigger] expo_buyer_of()(pre.exposure@[j]) != expo_buyer_of()(
                        e1,
                    ) by {
                        assert(pre.exposure@[j].buyer != buyer);
                    }
                    lemma_find_key_push(pre.exposure@, expo_buyer_of(), e1);
                    assert(expo_buyer_of()(e1) == buyer);
                    lemma_sum_by_push(Seq::<OpenOrder>::empty(), open_units_contrib(), item);
                    pre.lemma_expo_absent(buyer);
                    post.lemma_expo_at(post.exposure@.len() - 1);
                    assert(post.exposure_list(buyer) == pre.exposure_list(buyer).push(item));
                    assert forall|ii: int| 0 <= ii < post.exposure@.len()
                        implies crate::market::exposure_entry_wf(
                        #[trigger] post.exposure@[ii],
                        post.config,
                    ) by {
                        if ii < pre.exposure@.len() {
                            assert(post.exposure@[ii] == pre.exposure@[ii]);
                        } else {
                            assert(post.exposure@[ii] == e1);
                            assert(open_units(e1.open@) == units);
                        }
                    }
                    assert forall|i2: int, k: int|
                        0 <= i2 < post.exposure@.len() && 0 <= k < post.exposure@[i2].open@.len()
                        implies (#[trigger] post.exposure@[i2].open@[k]).id
                            < post.buy_order_count by {
                        if i2 < pre.exposure@.len() {
                            assert(post.exposure@[i2] == pre.exposure@[i2]);
                            assert(pre.exposure@[i2].open@[k].id < pre.buy_order_count);
                        } else {
                            assert(post.exposure@[i2].open@[k] == item);
                        }
                    }
                },
            }

            // Conservation: listed units fell and pending units rose by the
            // same reservation; escrow itself is untouched.
            assert forall|a: AssetId| #[trigger] post.slack(a) == pre.slack(a) by {
                lemma_sum_by_update(
                    pre.orders@,
                    order_units_contrib(a),
                    idx as int,
                    updated_order,
                );
                lemma_sum_by_push(pre.buy_orders@, buy_units_contrib(a), b);
                assert(post.ledger.escrowed_of(a) == pre.ledger.escrowed_of(a));
                if a == asset_id {
                    assert(order_units_contrib(a)(pre.orders@[idx as int]) == o.units);
                    assert(order_units_contrib(a)(updated_order) == o.units - units);
                    assert(buy_units_contrib(a)(b) == units);
                } else {
                    assert(order_units_contrib(a)(pre.orders@[idx as int]) == 0);
                    assert(order_units_contrib(a)(updated_order) == 0);
                    assert(buy_units_contrib(a)(b) == 0);
                }
            }

            // Lookups of every other key are untouched.
            assert forall|x: OrderId| x != order_id
                implies #[trigger] post.sell_order(x) == pre.sell_order(x) by {
                assert(find_by(
                    pre.orders@.update(idx as int, updated_order),
                    key_pred(sell_id_of(), x),
                ) == find_by(pre.orders@, key_pred(sell_id_of(), x)));
            }
            assert forall|x: BuyOrderId| x != buy_order_id
                implies #[trigger] post.buy_order(x) == pre.buy_order(x) by {
                assert(find_by(pre.buy_orders@.push(b), key_pred(buy_id_of(), x)) == find_by(
                    pre.buy_orders@,
                    key_pred(buy_id_of(), x),
                ));
            }
            assert forall|c: AccountId| c != buyer
                implies #[trigger] post.exposure_list(c) == pre.exposure_list(c) by {
                assert(find_by(post.exposure@, key_pred(expo_buyer_of(), c)) == find_by(
                    pre.exposure@,
                    key_pred(expo_buyer_of(), c),
                ));
            }
        }
        Ok(Some(buy_order_id))
    }
}

/// Index of the first open reservation equal to `(id, units)`.
fn find_open_index(v: &Vec<OpenOrder>, id: BuyOrderId, units: u128) -> (r: Option<usize>)
    ensures
        match r {
            Some(i) => i < v@.len() && v@[i as int].id == id && v@[i as int].units == units,
            None => forall|j: int|
                0 <= j < v@.len() ==> !((#[trigger] v@[j]).id == id && v@[j].units == units),
        },
{
    let n = v.len();
    let mut k: usize = 0;
    while k < n
        invariant
            n == v@.len(),
            0 <= k <= n,
            forall|j: int| 0 <= j < k ==> !((#[trigger] v@[j]).id == id && v@[j].units == units),
        decreases n - k,
    {
        if v[k].id == id && v[k].units == units {
            return Some(k);
        }
        k += 1;
    }
    None
}

impl Marketplace {
    /// How one sweep removal changes the state: the buy order at index `j`
    /// is consumed, its units go back onto the originating sell order when
    /// that order still exists and can take them, the buyer's open-order
    /// index drops the reservation, and an expiry notification is
    /// deposited. When the sell order has vanished the units stay in
    /// escrow: exact balance is then lost, though escrow still covers the
    /// books.
    pub open spec fn expire_transition(
        pre: Marketplace,
        post: Marketplace,
        j: int,
        now: Tick,
    ) -> bool {
        let b0 = pre.buy_orders@[j];
        let item = (OpenOrder { id: b0.id, units: b0.units });
        let l = pre.exposure_list(b0.buyer);
        let credited = pre.sell_order(b0.order_id) matches Some(so) && so.units + b0.units
            <= u128::MAX;
        &&& post == (Marketplace {
            orders: post.orders,
            buy_orders: post.buy_orders,
            exposure: post.exposure,
            events: post.events,
            ..pre
        })
        &&& post.buy_orders@ == pre.buy_orders@.remove(j)
        &&& post.buy_order(b0.id) is None
        &&& forall|x: BuyOrderId| x != b0.id ==> #[trigger] post.buy_order(x) == pre.buy_order(x)
        &&& credited ==> ({
            let so = pre.sell_order(b0.order_id)->Some_0;
            &&& post.sell_order(b0.order_id) == Some(
                SellOrder { units: (so.units + b0.units) as u128, ..so },
            )
            &&& forall|x: OrderId|
                x != b0.order_id ==> #[trigger] post.sell_order(x) == pre.sell_order(x)
            &&& (pre.balanced() ==> post.balanced())
        })
        &&& !credited ==> post.orders@ == pre.orders@
        &&& forall|c: AccountId|
            c != b0.buyer ==> #[trigger] post.exposure_list(c) == pre.exposure_list(c)
        &&& (exists|m: int| 0 <= m < l.len() && l[m] == item) ==> exists|m: int|
            0 <= m < l.len() && l[m] == item && post.exposure_list(b0.buyer) == l.remove(m)
        &&& !(exists|m: int| 0 <= m < l.len() && l[m] == item) ==> post.exposure_list(b0.buyer)
            == l
        &&& post.events@ == pre.events@.push(
            Event::BuyOrderExpired {
                order_id: b0.id,
                sell_order_id: b0.order_id,
                units: b0.units,
                buyer: b0.buyer,
            },
        )
    }

    /// One bounded sweep pass at tick `now`: inspects pending buy orders in
    /// book order, spending one unit of `budget` per inspection, and
    /// reclaims the first one whose deadline lies strictly before `now`.
    /// Returns whether a reservation was reclaimed; at most one is, per
    /// pass. Credit-back to a vanished sell order is best effort: the
    /// sweep never fails.
    pub fn expire_one(&mut self, now: Tick, budget: u64) -> (r: bool)
        requires
            old(self).wf(),
        ensures
            final(self).wf(),
            ({
                let n = old(self).buy_orders@.len() as int;
                let inspected = if budget <= n { budget as int } else { n };
                &&& !r ==> *final(self) == *old(self) && (forall|j: int|
                    0 <= j < inspected ==> !((#[trigger] old(self).buy_orders@[j]).expiry_time
                        < now))
                &&& r ==> exists|j: int|
                    {
                        &&& 0 <= j < inspected
                        &&& (#[trigger] old(self).buy_orders@[j]).expiry_time < now
                        &&& forall|i: int|
                            0 <= i < j ==> !((#[trigger] old(self).buy_orders@[i]).expiry_time
                                < now)
                        &&& Marketplace::expire_transition(*old(self), *final(self), j, now)
                    }
            }),
    {
        let ghost pre = *self;
        let mut k: usize = 0;
        let mut left: u64 = budget;
        let n = self.buy_orders.len();
        while k < n
            invariant
                *self == pre,
                pre == *old(self),
                pre.wf(),
                n == pre.buy_orders@.len(),
                0 <= k <= n,
                k <= budget,
                left == budget - k,
                forall|j: int|
                    0 <= j < k ==> !((#[trigger] pre.buy_orders@[j]).expiry_time < now),
            decreases n - k,
        {
            if left == 0 {
                return false;
            }
            left = left - 1;
            if self.buy_orders[k].expiry_time < now {
                let b_id = self.buy_orders[k].id;
                let b_order_id = self.buy_orders[k].order_id;
                let b_buyer = self.buy_orders[k].buyer;
                let b_units = self.buy_orders[k].units;
                proof {
                    pre.lemma_buy_at(k as int);
                }
                let ghost b0 = pre.buy_orders@[k as int];
                let ghost spec_credited = pre.sell_order(b_order_id) matches Some(so)
                    && so.units + b0.units <= u128::MAX;
                self.buy_orders.remove(k);
                proof {
                    assert(self.buy_orders@ == pre.buy_orders@.remove(k as int));
                    lemma_find_key_remove(pre.buy_orders@, buy_id_of(), k as int);
                    assert(buy_id_of()(pre.buy_orders@[k as int]) == b_id);
                }

                // Best-effort credit-back onto the originating sell order.
                let credit: Option<(usize, SellOrder)> = match self.find_sell_index(b_order_id) {
                    Some(si) => {
                        proof {
                            pre.lemma_sell_at(si as int);
                        }
                        let so = self.orders[si];
                        match so.units.checked_add(b_units) {
                            Some(nu) => Some(
                                (
                                    si,
                                    SellOrder {
                                        id: so.id,
                                        owner: so.owner,
                                        units: nu,
                                        price_per_unit: so.price_per_unit,
                                        asset_id: so.asset_id,
                                    },
                                ),
                            ),
                            None => None,
                        }
                    },
                    None => {
                        proof {
                            assert forall|j: int| 0 <= j < pre.orders@.len()
                                implies (#[trigger] pre.orders@[j]).id != b_order_id by {
                                assert(pre.orders@[j] == self.orders@[j]);
                            }
                            pre.lemma_sell_absent(b_order_id);
                        }
                        None
                    },
                };
                match credit {
                    Some((si, upd)) => {
                        self.orders[si] = upd;
                        proof {
                            assert(spec_credited);
                            assert(self.orders@ == pre.orders@.update(si as int, upd));
                            lemma_find_key_update(pre.orders@, sell_id_of(), si as int, upd);
                            assert(sell_id_of()(upd) == b_order_id);
                        }
                    },
                    None => {
                        proof {
                            assert(!spec_credited);
                        }
                    },
                }
                let ghost post_orders = self.orders@;

                self.events.push(
                    Event::BuyOrderExpired {
                        order_id: b_id,
                        sell_order_id: b_order_id,
                        units: b_units,
                        buyer: b_buyer,
                    },
                );
                let ghost mid = *self;
                proof {
                    assert(mid.exposure@ == pre.exposure@);
                    assert(unique_keys(mid.exposure@, expo_buyer_of()));
                    assert forall|i: int| 0 <= i < mid.exposure@.len()
                        implies crate::market::exposure_entry_wf(
                        #[trigger] mid.exposure@[i],
                        mid.config,
                    ) by {
                        assert(mid.exposure@[i] == pre.exposure@[i]);
                    }
                    assert forall|i: int, kk: int|
                        0 <= i < mid.exposure@.len() && 0 <= kk < mid.exposure@[i].open@.len()
                        implies (#[trigger] mid.exposure@[i].open@[kk]).id
                            < mid.buy_order_count by {
                        assert(mid.exposure@[i] == pre.exposure@[i]);
                        assert(pre.exposure@[i].open@[kk].id < pre.buy_order_count);
                    }
                    assert forall|c: AccountId|
                        #[trigger] mid.exposure_list(c) == pre.exposure_list(c) by {
                        assert(find_by(mid.exposure@, key_pred(expo_buyer_of(), c)) == find_by(
                            pre.exposure@,
                            key_pred(expo_buyer_of(), c),
                        ));
                    }
                }
                self.remove_open_entry(b_buyer, b_id, b_units);
                proof {
                    let post = *self;

                    // Lookups of untouched keys are as they were.
                    assert forall|x: BuyOrderId| x != b_id
                        implies #[trigger] post.buy_order(x) == pre.buy_order(x) by {
                        assert(find_by(
                            pre.buy_orders@.remove(k as int),
                            key_pred(buy_id_of(), x),
                        ) == find_by(pre.buy_orders@, key_pred(buy_id_of(), x)));
                    }
                    match credit {
                        Some((si, upd)) => {
                            assert forall|x: OrderId| x != b_order_id
                                implies #[trigger] post.sell_order(x) == pre.sell_order(x) by {
                                assert(find_by(
                                    pre.orders@.update(si as int, upd),
                                    key_pred(sell_id_of(), x),
                                ) == find_by(pre.orders@, key_pred(sell_id_of(), x)));
                            }
                            assert(post.sell_order(b_order_id) == Some(upd));
                        },
                        None => {
                            assert(post.orders@ == pre.orders@);
                            assert forall|x: OrderId|
                                #[trigger] post.sell_order(x) == pre.sell_order(x) by {
                                assert(find_by(post.orders@, key_pred(sell_id_of(), x))
                                    == find_by(pre.orders@, key_pred(sell_id_of(), x)));
                            }
                        },
                    }

                    // Buy-order book well-formedness after the removal.
                    assert forall|i: int| 0 <= i < post.buy_orders@.len() implies {
                        let bb = #[trigger] post.buy_orders@[i];
                        &&& bb.id < post.buy_order_count
                        &&& bb.units >= 1
                        &&& crate::market::payment_info_wf(bb, post.config)
                        &&& bb.order_id < post.order_count
                        &&& (post.sell_order(bb.order_id) matches Some(so) ==> so.asset_id
                            == bb.asset_id)
                    } by {
                        let i0 = if i < k as int { i } else { i + 1 };
                        let bb = post.buy_orders@[i];
                        assert(bb == pre.buy_orders@[i0]);
                        if bb.order_id == b_order_id {
                            match credit {
                                Some((si, upd)) => {
                                    assert(pre.sell_order(bb.order_id) == Some(
                                        pre.orders@[si as int],
                                    ));
                                    assert(pre.orders@[si as int].asset_id == bb.asset_id);
                                    assert(post.sell_order(bb.order_id) == Some(upd));
                                },
                                None => {},
                            }
                        } else {
                            assert(post.sell_order(bb.order_id) == pre.sell_order(bb.order_id));
                        }
                    }

                    // Sell-order identifiers stay below the counter.
                    assert forall|i: int| 0 <= i < post.orders@.len()
                        implies (#[trigger] post.orders@[i]).id < post.order_count by {
                        assert(post.orders@[i].id == pre.orders@[i].id);
                    }

                    // Conservation: pending units fell; listed units rose by
                    // the same amount when the credit-back landed.
                    assert forall|a: AssetId| #[trigger] post.slack(a) >= pre.slack(a)
                        && (spec_credited ==> post.slack(a) == pre.slack(a)) by {
                        lemma_sum_by_remove(pre.buy_orders@, buy_units_contrib(a), k as int);
                        assert(post.ledger.escrowed_of(a) == pre.ledger.escrowed_of(a));
                        match credit {
                            Some((si, upd)) => {
                                assert(pre.sell_order(b_order_id) == Some(
                                    pre.orders@[si as int],
                                ));
                                assert(pre.orders@[si as int].asset_id == b0.asset_id);
                                lemma_sum_by_update(
                                    pre.orders@,
                                    order_units_contrib(a),
                                    si as int,
                                    upd,
                                );
                                if a == b0.asset_id {
                                    assert(buy_units_contrib(a)(b0) == b0.units);
                                    assert(order_units_contrib(a)(upd)
                                        == order_units_contrib(a)(pre.orders@[si as int])
                                        + b0.units);
                                } else {
                                    assert(buy_units_contrib(a)(b0) == 0);
                                    assert(order_units_contrib(a)(upd) == order_units_contrib(
                                        a,
                                    )(pre.orders@[si as int]));
                                }
                            },
                            None => {
                                assert(post.orders@ == pre.orders@);
                                if a == b0.asset_id {
                                    assert(buy_units_contrib(a)(b0) == b0.units);
                                } else {
                                    assert(buy_units_contrib(a)(b0) == 0);
                                }
                            },
                        }
                    }

                    assert(Marketplace::expire_transition(pre, post, k as int, now));
                    assert(0 <= k < budget && k < n);
                }
                return true;
            }
            k += 1;
        }
        false
    }
}

} // verus!
