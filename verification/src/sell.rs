//! Listing inventory for sale, and cancelling a listing.

use vstd::prelude::*;
use crate::ledger::AssetLedger;
use crate::market::{
    buy_units_contrib, order_units_contrib, sell_id_of, Marketplace,
};
use crate::sums::{
    find_by, key_pred, lemma_find_key_push, lemma_find_key_remove, lemma_sum_by_nonneg,
    lemma_sum_by_push, lemma_sum_by_remove,
};
use crate::types::{AccountId, AssetId, DexError, Event, OrderId, SellOrder};

verus! {

impl Marketplace {
    /// The exact outcome of `create_sell_order`: the checks in the order
    /// they are made, and on success the allocated order identifier.
    pub open spec fn list_result(
        self,
        seller: AccountId,
        asset_id: AssetId,
        units: u128,
        price_per_unit: u128,
    ) -> Result<OrderId, DexError> {
        if !self.is_kyc_approved(seller) {
            Err(DexError::KYCAuthorisationFailed)
        } else if self.project_details(asset_id) is None {
            Err(DexError::AssetNotPermitted)
        } else if units < self.config.min_units_to_create_sell_order {
            Err(DexError::BelowMinimumUnits)
        } else if price_per_unit < self.config.min_price_per_unit {
            Err(DexError::BelowMinimumPrice)
        } else if self.ledger.balance_of(asset_id, seller) < units {
            Err(DexError::InsufficientBalance)
        } else if self.ledger.escrowed_of(asset_id) + units > u128::MAX {
            Err(DexError::ArithmeticError)
        } else if self.order_count + 1 > u128::MAX {
            Err(DexError::OrderIdOverflow)
        } else {
            Ok(self.order_count)
        }
    }

    /// Lists `units` of `asset_id` at `price_per_unit` for sale: moves the
    /// units from `seller` into escrow, allocates the next order
    /// identifier, records the order, and deposits a listing notification.
    /// Fails without any effect when the seller is not allow-listed, the
    /// asset is not listable, units or price are below their minimums, the
    /// seller's holding does not cover the units, or a counter or holding
    /// would overflow.
    pub fn create_sell_order(
        &mut self,
        seller: AccountId,
        asset_id: AssetId,
        units: u128,
        price_per_unit: u128,
    ) -> (r: Result<OrderId, DexError>)
        requires
            old(self).wf(),
        ensures
            final(self).wf(),
            old(self).balanced() ==> final(self).balanced(),
            r == old(self).list_result(seller, asset_id, units, price_per_unit),
            r is Err ==> *final(self) == *old(self),
            r is Ok ==> ({
                let id = old(self).order_count;
                let o = (SellOrder { id, owner: seller, units, price_per_unit, asset_id });
                let pg = old(self).project_details(asset_id)->Some_0;
                &&& *final(self) == (Marketplace {
                    ledger: final(self).ledger,
                    order_count: final(self).order_count,
                    orders: final(self).orders,
                    events: final(self).events,
                    ..*old(self)
                })
                &&& final(self).order_count == id + 1
                &&& final(self).orders@ == old(self).orders@.push(o)
                &&& final(self).sell_order(id) == Some(o)
                &&& forall|x: OrderId|
                    x != id ==> #[trigger] final(self).sell_order(x) == old(self).sell_order(x)
                &&& final(self).ledger.balance_of(asset_id, seller)
                    == old(self).ledger.balance_of(asset_id, seller) - units
                &&& final(self).ledger.escrowed_of(asset_id)
                    == old(self).ledger.escrowed_of(asset_id) + units
                &&& AssetLedger::other_balances_unchanged(
                    old(self).ledger,
                    final(self).ledger,
                    asset_id,
                    seller,
                )
                &&& AssetLedger::other_escrows_unchanged(
                    old(self).ledger,
                    final(self).ledger,
                    asset_id,
                )
                &&& final(self).events@ == old(self).events@.push(
                    Event::SellOrderCreated {
                        order_id: id,
                        asset_id,
                        project_id: pg.0,
                        group_id: pg.1,
                        units,
                        price_per_unit,
                        owner: seller,
                    },
                )
            }),
    {
        if !Marketplace::contains_account(&self.kyc_members, seller) {
            return Err(DexError::KYCAuthorisationFailed);
        }
        let (project_id, group_id) = match self.project_details_lookup(asset_id) {
            Some(pg) => pg,
            None => {
                return Err(DexError::AssetNotPermitted);
            },
        };
        if units < self.config.min_units_to_create_sell_order {
            return Err(DexError::BelowMinimumUnits);
        }
        if price_per_unit < self.config.min_price_per_unit {
            return Err(DexError::BelowMinimumPrice);
        }
        // The custody move is prechecked so that a refusal leaves no
        // partial state behind.
        let bal = self.ledger.balance_amount(asset_id, seller);
        if bal < units {
            return Err(DexError::InsufficientBalance);
        }
        let pool = self.ledger.escrowed_amount(asset_id);
        if pool > u128::MAX - units {
            return Err(DexError::ArithmeticError);
        }
        let order_id = self.order_count;
        let next = match order_id.checked_add(1) {
            Some(n) => n,
            None => {
                return Err(DexError::OrderIdOverflow);
            },
        };
        let ghost pre = *self;
        match self.ledger.transfer_to_escrow(asset_id, seller, units) {
            Ok(()) => {},
            Err(_) => {
                return Err(DexError::InsufficientBalance);
            },
        }
        self.order_count = next;
        let o = SellOrder { id: order_id, owner: seller, units, price_per_unit, asset_id };
        self.orders.push(o);
        self.events.push(
            Event::SellOrderCreated {
                order_id,
                asset_id,
                project_id,
                group_id,
                units,
                price_per_unit,
                owner: seller,
            },
        );
        proof {
            let post = *self;
            assert(post.orders@ == pre.orders@.push(o));
            assert forall|j: int| 0 <= j < pre.orders@.len()
                implies #[trigger] sell_id_of()(pre.orders@[j]) != sell_id_of()(o) by {
                assert(pre.orders@[j].id < pre.order_count);
            }
            lemma_find_key_push(pre.orders@, sell_id_of(), o);
            assert(sell_id_of()(o) == order_id);
            assert forall|i: int| 0 <= i < post.orders@.len()
                implies (#[trigger] post.orders@[i]).id < post.order_count by {
                if i < pre.orders@.len() {
                    assert(post.orders@[i] == pre.orders@[i]);
                } else {
                    assert(post.orders@[i] == o);
                }
            }
            assert forall|a: AssetId| #[trigger] post.slack(a) == pre.slack(a) by {
                lemma_sum_by_push(pre.orders@, order_units_contrib(a), o);
                assert(post.pending_units(a) == pre.pending_units(a));
                if a == asset_id {
                    assert(order_units_contrib(a)(o) == units);
                    assert(post.ledger.escrowed_of(a) == pre.ledger.escrowed_of(a) + units);
                } else {
                    assert(order_units_contrib(a)(o) == 0);
                    assert(post.ledger.escrowed_of(a) == pre.ledger.escrowed_of(a));
                }
            }
            assert forall|x: OrderId| x != order_id
                implies #[trigger] post.sell_order(x) == pre.sell_order(x) by {
                assert(find_by(pre.orders@.push(o), key_pred(sell_id_of(), x)) == find_by(
                    pre.orders@,
                    key_pred(sell_id_of(), x),
                ));
            }
            assert forall|i: int| 0 <= i < post.buy_orders@.len() implies {
                let bb = #[trigger] post.buy_orders@[i];
                &&& bb.order_id < post.order_count
                &&& (post.sell_order(bb.order_id) matches Some(so) ==> so.asset_id
                    == bb.asset_id)
            } by {
                let bb = post.buy_orders@[i];
                assert(bb == pre.buy_orders@[i]);
                assert(bb.order_id < pre.order_count);
                assert(post.sell_order(bb.order_id) == pre.sell_order(bb.order_id));
            }
        }
        Ok(order_id)
    }

    /// The exact outcome of `cancel_sell_order`: the checks in the order
    /// they are made.
    pub open spec fn cancel_result(self, caller: AccountId, order_id: OrderId) -> Result<
        (),
        DexError,
    > {
        match self.sell_order(order_id) {
            None => Err(DexError::InvalidOrderId),
            Some(o) => {
                if caller != o.owner {
                    Err(DexError::InvalidOrderOwner)
                } else if self.ledger.balance_of(o.asset_id, o.owner) + o.units > u128::MAX {
                    Err(DexError::ArithmeticError)
                } else {
                    Ok(())
                }
            },
        }
    }

    /// Cancels the sell order `order_id`: removes it and returns its full
    /// remaining units from escrow to the owner, depositing a cancellation
    /// notification. Only the owner may cancel; the whole call fails
    /// without any effect when the order is unknown, the caller is not the
    /// owner, or the owner's holding would overflow.
    pub fn cancel_sell_order(&mut self, caller: AccountId, order_id: OrderId) -> (r: Result<
        (),
        DexError,
    >)
        requires
            old(self).wf(),
        ensures
            final(self).wf(),
            old(self).balanced() ==> final(self).balanced(),
            r == old(self).cancel_result(caller, order_id),
            r is Err ==> *final(self) == *old(self),
            r is Ok ==> ({
                let o = old(self).sell_order(order_id)->Some_0;
                &&& *final(self) == (Marketplace {
                    ledger: final(self).ledger,
                    orders: final(self).orders,
                    events: final(self).events,
                    ..*old(self)
                })
                &&& final(self).orders@.len() == old(self).orders@.len() - 1
                &&& final(self).sell_order(order_id) is None
                &&& forall|x: OrderId|
                    x != order_id ==> #[trigger] final(self).sell_order(x) == old(self).sell_order(
                        x,
                    )
                &&& final(self).ledger.balance_of(o.asset_id, o.owner)
                    == old(self).ledger.balance_of(o.asset_id, o.owner) + o.units
                &&& final(self).ledger.escrowed_of(o.asset_id)
                    == old(self).ledger.escrowed_of(o.asset_id) - o.units
                &&& AssetLedger::other_balances_unchanged(
                    old(self).ledger,
                    final(self).ledger,
                    o.asset_id,
                    o.owner,
                )
                &&& AssetLedger::other_escrows_unchanged(
                    old(self).ledger,
                    final(self).ledger,
                    o.asset_id,
                )
                &&& final(self).events@ == old(self).events@.push(
                    Event::SellOrderCancelled { order_id, seller: caller },
                )
            }),
    {
        let idx = match self.find_sell_index(order_id) {
            Some(i) => i,
            None => {
                proof {
                    self.lemma_sell_absent(order_id);
                }
                return Err(DexError::InvalidOrderId);
            },
        };
        proof {
            self.lemma_sell_at(idx as int);
        }
        let o = self.orders[idx];
        if caller != o.owner {
            return Err(DexError::InvalidOrderOwner);
        }
        let bal = self.ledger.balance_amount(o.asset_id, o.owner);
        if bal > u128::MAX - o.units {
            return Err(DexError::ArithmeticError);
        }
        proof {
            // Escrow covers the order: the listed units of this asset
            // alone account for it, and pending units are nonnegative.
            self.lemma_listed_ge_order(idx as int);
            let f = buy_units_contrib(o.asset_id);
            assert(forall|j: int|
                0 <= j < self.buy_orders@.len() ==> #[trigger] f(self.buy_orders@[j]) >= 0);
            lemma_sum_by_nonneg(self.buy_orders@, f);
            assert(self.slack(o.asset_id) >= 0);
            assert(self.ledger.escrowed_of(o.asset_id) >= o.units);
        }
        let ghost pre = *self;
        match self.ledger.release_from_escrow(o.asset_id, o.owner, o.units) {
            Ok(()) => {},
            Err(_) => {
                return Err(DexError::ArithmeticError);
            },
        }
        self.orders.remove(idx);
        self.events.push(Event::SellOrderCancelled { order_id, seller: caller });
        proof {
            let post = *self;
            assert(post.orders@ == pre.orders@.remove(idx as int));
            lemma_find_key_remove(pre.orders@, sell_id_of(), idx as int);
            assert(sell_id_of()(pre.orders@[idx as int]) == order_id);
            assert forall|i: int| 0 <= i < post.orders@.len()
                implies (#[trigger] post.orders@[i]).id < post.order_count by {
                if i < idx as int {
                    assert(post.orders@[i] == pre.orders@[i]);
                } else {
                    assert(post.orders@[i] == pre.orders@[i + 1]);
                }
            }
            assert forall|a: AssetId| #[trigger] post.slack(a) == pre.slack(a) by {
                lemma_sum_by_remove(pre.orders@, order_units_contrib(a), idx as int);
                assert(post.pending_units(a) == pre.pending_units(a));
                if a == o.asset_id {
                    assert(order_units_contrib(a)(pre.orders@[idx as int]) == o.units);
                    assert(post.ledger.escrowed_of(a) == pre.ledger.escrowed_of(a) - o.units);
                } else {
                    assert(order_units_contrib(a)(pre.orders@[idx as int]) == 0);
                    assert(post.ledger.escrowed_of(a) == pre.ledger.escrowed_of(a));
                }
            }
            assert forall|x: OrderId| x != order_id
                implies #[trigger] post.sell_order(x) == pre.sell_order(x) by {
                assert(find_by(pre.orders@.remove(idx as int), key_pred(sell_id_of(), x))
                    == find_by(pre.orders@, key_pred(sell_id_of(), x)));
            }
            assert forall|i: int| 0 <= i < post.buy_orders@.len() implies {
                let bb = #[trigger] post.buy_orders@[i];
                &&& bb.order_id < post.order_count
                &&& (post.sell_order(bb.order_id) matches Some(so) ==> so.asset_id
                    == bb.asset_id)
            } by {
                let bb = post.buy_orders@[i];
                assert(bb == pre.buy_orders@[i]);
                if bb.order_id != order_id {
                    assert(post.sell_order(bb.order_id) == pre.sell_order(bb.order_id));
                }
            }
        }
        Ok(())
    }
}

} // verus!
