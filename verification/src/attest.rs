//! Validator attestation of buy-order payments, and the settlement that
//! fires when the quorum threshold is reached.

use vstd::prelude::*;
use crate::admin::bytes_equal;
use crate::ledger::AssetLedger;
use crate::market::{
    buy_id_of, buy_units_contrib, expo_buyer_of, order_units_contrib, recv_seller_of, sell_id_of,
    Marketplace,
};
use crate::sums::{
    find_by, key_pred, lemma_find_key_push, lemma_find_key_remove, lemma_find_key_update,
    lemma_sum_by_nonneg, lemma_sum_by_remove, lemma_sum_by_update, unique_keys,
};
use crate::types::{
    AccountId, AssetId, BuyOrder, BuyOrderId, DexError, Event, OpenOrder, OrderId, PaymentInfo,
    Receivable,
};

verus! {

impl Marketplace {
    /// The exact outcome of `validate_buy_order`: the checks in the order
    /// they are made, including those settlement makes once the quorum
    /// threshold is reached.
    pub open spec fn attest_result(
        self,
        sender: AccountId,
        order_id: BuyOrderId,
        chain_id: u32,
        tx_proof: Seq<u8>,
    ) -> Result<(), DexError> {
        if !self.is_validator(sender) {
            Err(DexError::NotAuthorised)
        } else {
            match self.buy_order(order_id) {
                None => Err(DexError::InvalidOrderId),
                Some(b) => match b.payment_info {
                    None => {
                        if self.config.max_validators < 1 {
                            Err(DexError::TooManyValidatorAccounts)
                        } else {
                            Ok(())
                        }
                    },
                    Some(pi) => {
                        if pi.chain_id != chain_id {
                            Err(DexError::ChainIdMismatch)
                        } else if pi.tx_proof@ != tx_proof {
                            Err(DexError::TxProofMismatch)
                        } else if pi.validators@.contains(sender) {
                            Err(DexError::DuplicateValidation)
                        } else if pi.validators@.len() >= self.config.max_validators {
                            Err(DexError::TooManyValidatorAccounts)
                        } else if pi.validators@.len() + 1 < self.min_payment_validators {
                            Ok(())
                        } else {
                            match self.sell_order(b.order_id) {
                                None => Err(DexError::InvalidOrderId),
                                Some(so) => {
                                    if self.ledger.balance_of(b.asset_id, b.buyer) + b.units
                                        > u128::MAX {
                                        Err(DexError::ArithmeticError)
                                    } else if b.total_amount < b.total_fee {
                                        Err(DexError::OrderUnitsOverflow)
                                    } else if self.recv_amount(so.owner) + (b.total_amount
                                        - b.total_fee) > u128::MAX {
                                        Err(DexError::OrderUnitsOverflow)
                                    } else if self.project_details(b.asset_id) is None {
                                        Err(DexError::AssetNotPermitted)
                                    } else {
                                        Ok(())
                                    }
                                },
                            }
                        }
                    },
                },
            }
        }
    }

    /// Whether this attestation is the one that reaches the quorum
    /// threshold and so triggers settlement, given it passes the
    /// recording checks.
    pub open spec fn attest_settles(
        self,
        sender: AccountId,
        order_id: BuyOrderId,
        chain_id: u32,
        tx_proof: Seq<u8>,
    ) -> bool {
        &&& self.is_validator(sender)
        &&& self.buy_order(order_id) matches Some(b)
        &&& self.buy_order(order_id)->Some_0.payment_info matches Some(pi) && {
            &&& pi.chain_id == chain_id
            &&& pi.tx_proof@ == tx_proof
            &&& !pi.validators@.contains(sender)
            &&& pi.validators@.len() < self.config.max_validators
            &&& pi.validators@.len() + 1 >= self.min_payment_validators
        }
    }

    /// How a non-settling, accepted attestation changes the state: the
    /// order's attestation record gains `sender`, everything else stays,
    /// and a validation notification is deposited.
    pub open spec fn attest_recorded(
        pre: Marketplace,
        post: Marketplace,
        order_id: BuyOrderId,
        sender: AccountId,
        chain_id: u32,
        tx_proof: Vec<u8>,
    ) -> bool {
        let b = pre.buy_order(order_id)->Some_0;
        &&& post == (Marketplace {
            buy_orders: post.buy_orders,
            events: post.events,
            ..pre
        })
        &&& post.buy_orders@.len() == pre.buy_orders@.len()
        &&& forall|x: BuyOrderId| x != order_id ==> #[trigger] post.buy_order(x) == pre.buy_order(x)
        &&& post.buy_order(order_id) matches Some(nb) && {
            &&& nb.id == b.id && nb.order_id == b.order_id && nb.buyer == b.buyer
            &&& nb.units == b.units && nb.price_per_unit == b.price_per_unit
            &&& nb.asset_id == b.asset_id && nb.total_fee == b.total_fee
            &&& nb.total_amount == b.total_amount && nb.expiry_time == b.expiry_time
            &&& nb.payment_info matches Some(pi) && {
                &&& pi.chain_id == chain_id
                &&& pi.tx_proof@ == (match b.payment_info {
                    None => tx_proof@,
                    Some(p0) => p0.tx_proof@,
                })
                &&& pi.validators@ == (match b.payment_info {
                    None => Seq::<AccountId>::empty(),
                    Some(p0) => p0.validators@,
                }).push(sender)
            }
        }
        &&& post.events@ == pre.events@.push(
            Event::BuyOrderPaymentValidated { order_id, chain_id, validator: sender },
        )
    }

    /// How settlement changes the state: the buy order is consumed, its
    /// units leave escrow for the buyer (and are retired at once on the
    /// off-chain channel, chain zero), the seller's receivable grows by
    /// the amount net of fees, the buyer's open-order index drops the
    /// reservation, and validation and fill notifications are deposited.
    /// A sold-out listing — zero remaining units and, after this
    /// settlement, no pending reservation referencing it — is removed from
    /// the book: its consuming reservation has completed.
    pub open spec fn settle_transition(
        pre: Marketplace,
        post: Marketplace,
        order_id: BuyOrderId,
        sender: AccountId,
        chain_id: u32,
    ) -> bool {
        let b = pre.buy_order(order_id)->Some_0;
        let so = pre.sell_order(b.order_id)->Some_0;
        let pay = b.total_amount - b.total_fee;
        let item = (OpenOrder { id: order_id, units: b.units });
        let l = pre.exposure_list(b.buyer);
        let pg = pre.project_details(b.asset_id)->Some_0;
        &&& post == (Marketplace {
            ledger: post.ledger,
            orders: post.orders,
            buy_orders: post.buy_orders,
            receivables: post.receivables,
            exposure: post.exposure,
            events: post.events,
            ..pre
        })
        &&& post.buy_orders@.len() == pre.buy_orders@.len() - 1
        &&& post.buy_order(order_id) is None
        &&& forall|x: BuyOrderId| x != order_id ==> #[trigger] post.buy_order(x) == pre.buy_order(x)
        &&& ({
            let closes = so.units == 0 && !Marketplace::references_sell(
                post.buy_orders@,
                b.order_id,
            );
            &&& closes ==> post.sell_order(b.order_id) is None && post.orders@.len()
                == pre.orders@.len() - 1
            &&& !closes ==> post.orders@ == pre.orders@
        })
        &&& forall|x: OrderId|
            x != b.order_id ==> #[trigger] post.sell_order(x) == pre.sell_order(x)
        &&& post.ledger.escrowed_of(b.asset_id) == pre.ledger.escrowed_of(b.asset_id) - b.units
        &&& post.ledger.balance_of(b.asset_id, b.buyer) == pre.ledger.balance_of(
            b.asset_id,
            b.buyer,
        ) + (if chain_id == 0 {
            0int
        } else {
            b.units as int
        })
        &&& AssetLedger::other_balances_unchanged(pre.ledger, post.ledger, b.asset_id, b.buyer)
        &&& AssetLedger::other_escrows_unchanged(pre.ledger, post.ledger, b.asset_id)
        &&& post.recv_amount(so.owner) == pre.recv_amount(so.owner) + pay
        &&& forall|s: AccountId|
            s != so.owner ==> #[trigger] post.receivable_of(s) == pre.receivable_of(s)
        &&& forall|c: AccountId|
            c != b.buyer ==> #[trigger] post.exposure_list(c) == pre.exposure_list(c)
        &&& (exists|m: int| 0 <= m < l.len() && l[m] == item) ==> exists|m: int|
            0 <= m < l.len() && l[m] == item && post.exposure_list(b.buyer) == l.remove(m)
        &&& !(exists|m: int| 0 <= m < l.len() && l[m] == item) ==> post.exposure_list(b.buyer)
            == l
        &&& (pre.balanced() ==> post.balanced())
        &&& post.events@ == pre.events@.push(
            Event::BuyOrderPaymentValidated { order_id, chain_id, validator: sender },
        ).push(
            Event::BuyOrderFilled {
                order_id,
                sell_order_id: b.order_id,
                units: b.units,
                project_id: pg.0,
                group_id: pg.1,
                price_per_unit: b.price_per_unit,
                fees_paid: b.total_fee,
                seller: so.owner,
                buyer: b.buyer,
            },
        )
    }

    /// Records `sender`'s attestation that the payment `(chain_id,
    /// tx_proof)` happened for buy order `order_id`. The first attestation
    /// fixes chain and proof; later ones must match them exactly and may
    /// come from each validator once. The attestation that reaches the
    /// quorum threshold settles the order synchronously, within this same
    /// call; every refusal, settlement failures included, leaves the whole
    /// state untouched, the new attestation not recorded. The retirement
    /// reason is passed through to the off-system retirement report and
    /// plays no part in the decision.
    pub fn validate_buy_order(
        &mut self,
        sender: AccountId,
        order_id: BuyOrderId,
        chain_id: u32,
        tx_proof: Vec<u8>,
        retirement_reason: Option<Vec<u8>>,
    ) -> (r: Result<(), DexError>)
        requires
            old(self).wf(),
            tx_proof@.len() <= old(self).config.max_tx_proof_len,
        ensures
            final(self).wf(),
            old(self).balanced() ==> final(self).balanced(),
            r == old(self).attest_result(sender, order_id, chain_id, tx_proof@),
            r is Err ==> *final(self) == *old(self),
            r is Ok && !old(self).attest_settles(sender, order_id, chain_id, tx_proof@)
                ==> Marketplace::attest_recorded(
                *old(self),
                *final(self),
                order_id,
                sender,
                chain_id,
                tx_proof,
            ),
            r is Ok && old(self).attest_settles(sender, order_id, chain_id, tx_proof@)
                ==> Marketplace::settle_transition(
                *old(self),
                *final(self),
                order_id,
                sender,
                chain_id,
            ),
    {
        let ghost pre = *self;
        if !Marketplace::contains_account(&self.validators, sender) {
            return Err(DexError::NotAuthorised);
        }
        let idx = match self.find_buy_index(order_id) {
            Some(i) => i,
            None => {
                proof {
                    self.lemma_buy_absent(order_id);
                }
                return Err(DexError::InvalidOrderId);
            },
        };
        proof {
            self.lemma_buy_at(idx as int);
        }
        let b_sell_id = self.buy_orders[idx].order_id;
        let b_buyer = self.buy_orders[idx].buyer;
        let b_units = self.buy_orders[idx].units;
        let b_price = self.buy_orders[idx].price_per_unit;
        let b_asset = self.buy_orders[idx].asset_id;
        let b_fee = self.buy_orders[idx].total_fee;
        let b_amount = self.buy_orders[idx].total_amount;
        let cnt: usize;
        match &self.buy_orders[idx].payment_info {
            None => {
                // First attestation: create the record with this validator
                // as its sole member. No quorum check is made here.
                if self.config.max_validators < 1 {
                    return Err(DexError::TooManyValidatorAccounts);
                }
                let mut validators: Vec<AccountId> = Vec::new();
                validators.push(sender);
                let mut bo = self.buy_orders.remove(idx);
                bo.payment_info = Some(PaymentInfo { chain_id, tx_proof, validators });
                self.buy_orders.insert(idx, bo);
                self.events.push(
                    Event::BuyOrderPaymentValidated { order_id, chain_id, validator: sender },
                );
                proof {
                    let post = *self;
                    let nb = post.buy_orders@[idx as int];
                    assert(post.buy_orders@ =~= pre.buy_orders@.update(idx as int, nb));
                    lemma_find_key_update(pre.buy_orders@, buy_id_of(), idx as int, nb);
                    assert(buy_id_of()(nb) == order_id);
                    assert(nb.payment_info->Some_0.validators@ =~= Seq::<
                        AccountId,
                    >::empty().push(sender));
                    Marketplace::lemma_attest_record_wf(pre, post, idx as int, nb);
                }
                return Ok(());
            },
            Some(pi) => {
                if pi.chain_id != chain_id {
                    return Err(DexError::ChainIdMismatch);
                }
                if !bytes_equal(&pi.tx_proof, &tx_proof) {
                    return Err(DexError::TxProofMismatch);
                }
                if Marketplace::contains_account(&pi.validators, sender) {
                    return Err(DexError::DuplicateValidation);
                }
                cnt = pi.validators.len();
            },
        }
        if cnt >= self.config.max_validators {
            return Err(DexError::TooManyValidatorAccounts);
        }
        let threshold = self.min_payment_validators;
        if (cnt as u64) + 1 < (threshold as u64) {
            // Below quorum: record the attestation and stop.
            let mut bo = self.buy_orders.remove(idx);
            match &mut bo.payment_info {
                Some(pi) => {
                    pi.validators.push(sender);
                },
                None => {},
            }
            self.buy_orders.insert(idx, bo);
            self.events.push(
                Event::BuyOrderPaymentValidated { order_id, chain_id, validator: sender },
            );
            proof {
                let post = *self;
                let nb = post.buy_orders@[idx as int];
                assert(post.buy_orders@ =~= pre.buy_orders@.update(idx as int, nb));
                lemma_find_key_update(pre.buy_orders@, buy_id_of(), idx as int, nb);
                assert(buy_id_of()(nb) == order_id);
                Marketplace::lemma_attest_record_wf(pre, post, idx as int, nb);
            }
            return Ok(());
        }

        // Quorum reached: settle, or refuse the whole call untouched.
        let si = match self.find_sell_index(b_sell_id) {
            Some(i) => i,
            None => {
                proof {
                    self.lemma_sell_absent(b_sell_id);
                }
                return Err(DexError::InvalidOrderId);
            },
        };
        proof {
            self.lemma_sell_at(si as int);
        }
        let so = self.orders[si];
        let buyer_bal = self.ledger.balance_amount(b_asset, b_buyer);
        if buyer_bal > u128::MAX - b_units {
            return Err(DexError::ArithmeticError);
        }
        let pay = match b_amount.checked_sub(b_fee) {
            Some(p) => p,
            None => {
                return Err(DexError::OrderUnitsOverflow);
            },
        };
        let recv_idx = self.find_recv_index(so.owner);
        let cur_recv: u128 = match recv_idx {
            Some(i) => {
                proof {
                    self.lemma_recv_at(i as int);
                }
                self.receivables[i].amount
            },
            None => {
                proof {
                    self.lemma_recv_absent(so.owner);
                }
                0
            },
        };
        let new_recv = match cur_recv.checked_add(pay) {
            Some(n) => n,
            None => {
                return Err(DexError::OrderUnitsOverflow);
            },
        };
        let (project_id, group_id) = match self.project_details_lookup(b_asset) {
            Some(pg) => pg,
            None => {
                return Err(DexError::AssetNotPermitted);
            },
        };
        proof {
            // Escrow covers the reservation being released.
            self.lemma_pending_ge_buy(idx as int);
            let f = order_units_contrib(b_asset);
            assert(forall|j: int|
                0 <= j < self.orders@.len() ==> #[trigger] f(self.orders@[j]) >= 0);
            lemma_sum_by_nonneg(self.orders@, f);
            assert(self.slack(b_asset) >= 0);
            assert(self.ledger.escrowed_of(b_asset) >= b_units);
        }
        match self.ledger.release_from_escrow(b_asset, b_buyer, b_units) {
            Ok(()) => {},
            Err(_) => {
                return Err(DexError::ArithmeticError);
            },
        }
        let ghost led_rel = self.ledger;
        if chain_id == 0 {
            // The off-chain payment channel retires the credits at once.
            match self.ledger.retire(b_asset, b_buyer, b_units) {
                Ok(()) => {},
                Err(_) => {
                    return Err(DexError::ArithmeticError);
                },
            }
        }
        proof {
            // The two custody moves compose: escrow fell by the released
            // units, the buyer's holding kept them unless retired at once.
            assert forall|a: AssetId|
                #[trigger] self.ledger.escrowed_of(a) == led_rel.escrowed_of(a) by {
                assert(self.ledger.escrows@ == led_rel.escrows@);
            }
            assert forall|a: AssetId, c: AccountId| !(a == b_asset && c == b_buyer)
                implies #[trigger] self.ledger.balance_of(a, c) == pre.ledger.balance_of(
                a,
                c,
            ) by {
                assert(led_rel.balance_of(a, c) == pre.ledger.balance_of(a, c));
            }
            assert(self.ledger.escrowed_of(b_asset) == pre.ledger.escrowed_of(b_asset)
                - b_units);
            if chain_id == 0 {
                assert(self.ledger.balance_of(b_asset, b_buyer) == pre.ledger.balance_of(
                    b_asset,
                    b_buyer,
                ));
            } else {
                assert(self.ledger == led_rel);
                assert(self.ledger.balance_of(b_asset, b_buyer) == pre.ledger.balance_of(
                    b_asset,
                    b_buyer,
                ) + b_units);
            }
        }
        match recv_idx {
            Some(i) => {
                let upd = Receivable { seller: so.owner, amount: new_recv };
                self.receivables[i] = upd;
                proof {
                    lemma_find_key_update(pre.receivables@, recv_seller_of(), i as int, upd);
                    assert(recv_seller_of()(upd) == so.owner);
                }
            },
            None => {
                let fresh = Receivable { seller: so.owner, amount: new_recv };
                self.receivables.push(fresh);
                proof {
                    assert forall|j: int| 0 <= j < pre.receivables@.len()
                        implies #[trigger] recv_seller_of()(pre.receivables@[j])
                            != recv_seller_of()(fresh) by {
                        assert(pre.receivables@[j].seller != so.owner);
                    }
                    lemma_find_key_push(pre.receivables@, recv_seller_of(), fresh);
                    assert(recv_seller_of()(fresh) == so.owner);
                }
            },
        }
        self.buy_orders.remove(idx);
        proof {
            assert(self.buy_orders@ == pre.buy_orders@.remove(idx as int));
            lemma_find_key_remove(pre.buy_orders@, buy_id_of(), idx as int);
            assert(buy_id_of()(pre.buy_orders@[idx as int]) == order_id);
        }
        // A sold-out listing leaves the book once its last pending
        // reservation completes here.
        let closes = so.units == 0 && !Marketplace::any_references_sell(
            &self.buy_orders,
            b_sell_id,
        );
        if closes {
            self.orders.remove(si);
            proof {
                assert(self.orders@ == pre.orders@.remove(si as int));
                lemma_find_key_remove(pre.orders@, sell_id_of(), si as int);
                assert(sell_id_of()(pre.orders@[si as int]) == b_sell_id);
            }
        }
        self.events.push(
            Event::BuyOrderPaymentValidated { order_id, chain_id, validator: sender },
        );
        self.events.push(
            Event::BuyOrderFilled {
                order_id,
                sell_order_id: b_sell_id,
                units: b_units,
                project_id,
                group_id,
                price_per_unit: b_price,
                fees_paid: b_fee,
                seller: so.owner,
                buyer: b_buyer,
            },
        );
        let ghost mid = *self;
        proof {
            assert(mid.exposure@ == pre.exposure@);
            assert(unique_keys(mid.exposure@, expo_buyer_of()));
            assert forall|i: int| 0 <= i < mid.exposure@.len()
                implies crate::market::exposure_entry_wf(
                #[trigger] mid.exposure@[i],
                mid.config,
            ) by {
                assert(mid.exposure@[i] == pre.exposure@[i]);
            }
            assert forall|i: int, kk: int|
                0 <= i < mid.exposure@.len() && 0 <= kk < mid.exposure@[i].open@.len()
                implies (#[trigger] mid.exposure@[i].open@[kk]).id < mid.buy_order_count by {
                assert(mid.exposure@[i] == pre.exposure@[i]);
                assert(pre.exposure@[i].open@[kk].id < pre.buy_order_count);
            }
            assert forall|c: AccountId| #[trigger] mid.exposure_list(c) == pre.exposure_list(
                c,
            ) by {
                assert(find_by(mid.exposure@, key_pred(expo_buyer_of(), c)) == find_by(
                    pre.exposure@,
                    key_pred(expo_buyer_of(), c),
                ));
            }
        }
        self.remove_open_entry(b_buyer, order_id, b_units);
        proof {
            let post = *self;
            let b0 = pre.buy_orders@[idx as int];

            // Lookups of untouched keys are as they were.
            assert forall|x: BuyOrderId| x != order_id
                implies #[trigger] post.buy_order(x) == pre.buy_order(x) by {
                assert(find_by(pre.buy_orders@.remove(idx as int), key_pred(buy_id_of(), x))
                    == find_by(pre.buy_orders@, key_pred(buy_id_of(), x)));
            }
            assert(closes == (so.units == 0 && !Marketplace::references_sell(
                post.buy_orders@,
                b_sell_id,
            )));
            if closes {
                assert(post.orders@ == pre.orders@.remove(si as int));
                assert forall|x: OrderId| x != b_sell_id
                    implies #[trigger] post.sell_order(x) == pre.sell_order(x) by {
                    assert(find_by(pre.orders@.remove(si as int), key_pred(sell_id_of(), x))
                        == find_by(pre.orders@, key_pred(sell_id_of(), x)));
                }
                assert(post.sell_order(b_sell_id) is None);
            } else {
                assert forall|x: OrderId|
                    #[trigger] post.sell_order(x) == pre.sell_order(x) by {
                    assert(find_by(post.orders@, key_pred(sell_id_of(), x)) == find_by(
                        pre.orders@,
                        key_pred(sell_id_of(), x),
                    ));
                }
            }

            // Buy-order book well-formedness after the removal.
            assert forall|i: int| 0 <= i < post.buy_orders@.len() implies {
                let bb = #[trigger] post.buy_orders@[i];
                &&& bb.id < post.buy_order_count
                &&& bb.units >= 1
                &&& crate::market::payment_info_wf(bb, post.config)
                &&& bb.order_id < post.order_count
                &&& (post.sell_order(bb.order_id) matches Some(so2) ==> so2.asset_id
                    == bb.asset_id)
            } by {
                let i0 = if i < idx as int { i } else { i + 1 };
                assert(post.buy_orders@[i] == pre.buy_orders@[i0]);
                if closes && post.buy_orders@[i].order_id == b_sell_id {
                    assert(Marketplace::references_sell(post.buy_orders@, b_sell_id));
                    assert(false);
                } else {
                    assert(post.sell_order(post.buy_orders@[i].order_id) == pre.sell_order(
                        post.buy_orders@[i].order_id,
                    ));
                }
            }

            // Sell-order identifiers stay below the counter.
            assert forall|i: int| 0 <= i < post.orders@.len()
                implies (#[trigger] post.orders@[i]).id < post.order_count by {
                if closes {
                    let i0 = if i < si as int { i } else { i + 1 };
                    assert(post.orders@[i] == pre.orders@[i0]);
                } else {
                    assert(post.orders@[i] == pre.orders@[i]);
                }
            }

            // Conservation: the released units leave pending and escrow
            // together; nothing else moves.
            assert forall|a: AssetId| #[trigger] post.slack(a) == pre.slack(a) by {
                lemma_sum_by_remove(pre.buy_orders@, buy_units_contrib(a), idx as int);
                if closes {
                    lemma_sum_by_remove(pre.orders@, order_units_contrib(a), si as int);
                    assert(order_units_contrib(a)(pre.orders@[si as int]) == 0);
                } else {
                    assert(post.listed_units(a) == pre.listed_units(a));
                }
                assert(post.ledger.escrowed_of(a) == led_rel.escrowed_of(a));
                if a == b_asset {
                    assert(buy_units_contrib(a)(b0) == b0.units);
                    assert(led_rel.escrowed_of(a) == pre.ledger.escrowed_of(a) - b_units);
                } else {
                    assert(buy_units_contrib(a)(b0) == 0);
                    assert(led_rel.escrowed_of(a) == pre.ledger.escrowed_of(a));
                }
            }

            assert(post.recv_amount(so.owner) == pre.recv_amount(so.owner) + pay);
            assert forall|s: AccountId| s != so.owner
                implies #[trigger] post.receivable_of(s) == pre.receivable_of(s) by {
                match recv_idx {
                    Some(i) => {
                        assert(find_by(
                            pre.receivables@.update(
                                i as int,
                                (Receivable { seller: so.owner, amount: new_recv }),
                            ),
                            key_pred(recv_seller_of(), s),
                        ) == find_by(pre.receivables@, key_pred(recv_seller_of(), s)));
                    },
                    None => {
                        assert(find_by(
                            pre.receivables@.push(
                                (Receivable { seller: so.owner, amount: new_recv }),
                            ),
                            key_pred(recv_seller_of(), s),
                        ) == find_by(pre.receivables@, key_pred(recv_seller_of(), s)));
                    },
                }
            }
            assert(Marketplace::settle_transition(pre, post, order_id, sender, chain_id));
        }
        Ok(())
    }

    /// A recorded (non-settling) attestation keeps every invariant: the
    /// touched buy order only gained one attesting validator.
    proof fn lemma_attest_record_wf(pre: Marketplace, post: Marketplace, idx: int, nb: BuyOrder)
        requires
            pre.wf(),
            0 <= idx < pre.buy_orders@.len(),
            post == (Marketplace {
                buy_orders: post.buy_orders,
                events: post.events,
                ..pre
            }),
            post.buy_orders@ == pre.buy_orders@.update(idx, nb),
            nb == post.buy_orders@[idx],
            nb.id == pre.buy_orders@[idx].id,
            nb.order_id == pre.buy_orders@[idx].order_id,
            nb.buyer == pre.buy_orders@[idx].buyer,
            nb.units == pre.buy_orders@[idx].units,
            nb.price_per_unit == pre.buy_orders@[idx].price_per_unit,
            nb.asset_id == pre.buy_orders@[idx].asset_id,
            nb.total_fee == pre.buy_orders@[idx].total_fee,
            nb.total_amount == pre.buy_orders@[idx].total_amount,
            nb.expiry_time == pre.buy_orders@[idx].expiry_time,
            nb.payment_info matches Some(pi) && {
                let old_vs = match pre.buy_orders@[idx].payment_info {
                    None => Seq::<AccountId>::empty(),
                    Some(p0) => p0.validators@,
                };
                &&& pi.validators@ == old_vs.push(
                    pi.validators@[pi.validators@.len() - 1],
                )
                &&& !old_vs.contains(pi.validators@[pi.validators@.len() - 1])
                &&& pi.validators@.len() <= pre.config.max_validators
                &&& pi.tx_proof@.len() <= pre.config.max_tx_proof_len
            },
        ensures
            post.wf(),
            pre.balanced() ==> post.balanced(),
    {
        let pi = nb.payment_info->Some_0;
        let old_vs = match pre.buy_orders@[idx].payment_info {
            None => Seq::<AccountId>::empty(),
            Some(p0) => p0.validators@,
        };
        assert forall|a: int, b2: int| 0 <= a < b2 < pi.validators@.len()
            implies pi.validators@[a] != pi.validators@[b2] by {
            if b2 < pi.validators@.len() - 1 {
                assert(pi.validators@[a] == old_vs[a] && pi.validators@[b2] == old_vs[b2]);
            } else {
                assert(pi.validators@[a] == old_vs[a]);
                assert(old_vs.contains(old_vs[a]));
            }
        }
        assert forall|i: int| 0 <= i < post.buy_orders@.len() implies {
            let bb = #[trigger] post.buy_orders@[i];
            &&& bb.id < post.buy_order_count
            &&& bb.units >= 1
            &&& crate::market::payment_info_wf(bb, post.config)
            &&& bb.order_id < post.order_count
            &&& (post.sell_order(bb.order_id) matches Some(so2) ==> so2.asset_id == bb.asset_id)
        } by {
            if i != idx {
                assert(post.buy_orders@[i] == pre.buy_orders@[i]);
            }
            assert(find_by(post.orders@, key_pred(sell_id_of(), post.buy_orders@[i].order_id))
                == find_by(pre.orders@, key_pred(sell_id_of(), post.buy_orders@[i].order_id)));
        }
        assert(unique_keys(post.buy_orders@, buy_id_of())) by {
            assert forall|a: int, b2: int| 0 <= a < b2 < post.buy_orders@.len()
                implies #[trigger] buy_id_of()(post.buy_orders@[a]) != #[trigger] buy_id_of()(
                post.buy_orders@[b2],
            ) by {
                assert(buy_id_of()(post.buy_orders@[a]) == buy_id_of()(pre.buy_orders@[a]));
                assert(buy_id_of()(post.buy_orders@[b2]) == buy_id_of()(pre.buy_orders@[b2]));
            }
        }
        assert forall|a: AssetId| #[trigger] post.slack(a) == pre.slack(a) by {
            lemma_sum_by_update(pre.buy_orders@, buy_units_contrib(a), idx, nb);
            assert(buy_units_contrib(a)(nb) == buy_units_contrib(a)(pre.buy_orders@[idx]));
            assert(post.listed_units(a) == pre.listed_units(a));
            assert(post.ledger.escrowed_of(a) == pre.ledger.escrowed_of(a));
        }
        assert forall|i: int| 0 <= i < post.orders@.len()
            implies (#[trigger] post.orders@[i]).id < post.order_count by {
            assert(post.orders@[i] == pre.orders@[i]);
        }
    }
}

} // verus!
