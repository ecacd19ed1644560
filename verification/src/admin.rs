//! Privileged configuration calls and the payout ledger. Origin
//! authentication lies with the surrounding dispatcher: whoever can reach
//! these calls is the privileged authority, except where a contract names
//! a stored authority explicitly.

use vstd::prelude::*;
use crate::market::{pref_seller_of, recv_seller_of, expo_buyer_of, Marketplace};
use crate::sums::{
    find_by, key_pred, lemma_find_key_push, lemma_find_key_remove, lemma_find_key_update,
};
use crate::types::{
    AccountId, DexError, Event, Payout, PayoutPreference, PreferenceEntry, Receivable, UserLevel,
};

verus! {

/// The fields of a payout preference, as mathematical values.
pub open spec fn pref_view(p: PayoutPreference) -> (u32, Seq<u8>) {
    (p.channel_id, p.address@)
}

/// Copies a byte string.
pub(crate) fn clone_bytes(v: &Vec<u8>) -> (r: Vec<u8>)
    ensures
        r@ == v@,
{
    let n = v.len();
    let mut r: Vec<u8> = Vec::new();
    let mut k: usize = 0;
    while k < n
        invariant
            n == v@.len(),
            0 <= k <= n,
            r@ == v@.take(k as int),
        decreases n - k,
    {
        r.push(v[k]);
        proof {
            assert(r@ =~= v@.take(k as int + 1));
        }
        k += 1;
    }
    proof {
        assert(r@ =~= v@);
    }
    r
}

/// Whether two byte strings hold the same bytes.
pub(crate) fn bytes_equal(a: &Vec<u8>, b: &Vec<u8>) -> (r: bool)
    ensures
        r == (a@ == b@),
{
    let n = a.len();
    if n != b.len() {
        return false;
    }
    let mut k: usize = 0;
    while k < n
        invariant
            n == a@.len() == b@.len(),
            0 <= k <= n,
            forall|j: int| 0 <= j < k ==> a@[j] == b@[j],
        decreases n - k,
    {
        if a[k] != b[k] {
            return false;
        }
        k += 1;
    }
    proof {
        assert(a@ =~= b@);
    }
    true
}

impl Marketplace {
    /// Sets the payment-fee rate, in whole percent; refused above the
    /// configured cap.
    pub fn force_set_payment_fee(&mut self, payment_fee: u8) -> (r: Result<(), DexError>)
        requires
            old(self).wf(),
        ensures
            final(self).wf(),
            old(self).balanced() ==> final(self).balanced(),
            r is Ok <==> payment_fee <= old(self).config.max_payment_fee,
            r is Err ==> *final(self) == *old(self) && r->Err_0
                == DexError::CannotSetMoreThanMaxPaymentFee,
            r is Ok ==> *final(self) == (Marketplace {
                payment_fee_rate: payment_fee,
                ..*old(self)
            }),
    {
        if payment_fee > self.config.max_payment_fee {
            return Err(DexError::CannotSetMoreThanMaxPaymentFee);
        }
        let ghost pre = *self;
        self.payment_fee_rate = payment_fee;
        proof {
            Marketplace::lemma_slack_bridge(pre, *self);
        }
        Ok(())
    }

    /// Sets the flat purchase fee; refused above the configured cap.
    pub fn force_set_purchase_fee(&mut self, purchase_fee: u128) -> (r: Result<(), DexError>)
        requires
            old(self).wf(),
        ensures
            final(self).wf(),
            old(self).balanced() ==> final(self).balanced(),
            r is Ok <==> purchase_fee <= old(self).config.max_purchase_fee,
            r is Err ==> *final(self) == *old(self) && r->Err_0
                == DexError::CannotSetMoreThanMaxPurchaseFee,
            r is Ok ==> *final(self) == (Marketplace { purchase_fee, ..*old(self) }),
    {
        if purchase_fee > self.config.max_purchase_fee {
            return Err(DexError::CannotSetMoreThanMaxPurchaseFee);
        }
        let ghost pre = *self;
        self.purchase_fee = purchase_fee;
        proof {
            Marketplace::lemma_slack_bridge(pre, *self);
        }
        Ok(())
    }

    /// Adds `account_id` to the validator set; refused on a duplicate, and
    /// when the set is at capacity.
    pub fn force_add_validator_account(&mut self, account_id: AccountId) -> (r: Result<
        (),
        DexError,
    >)
        requires
            old(self).wf(),
        ensures
            final(self).wf(),
            old(self).balanced() ==> final(self).balanced(),
            r is Err ==> *final(self) == *old(self),
            old(self).is_validator(account_id) ==> r == Err::<(), DexError>(
                DexError::ValidatorAccountAlreadyExists,
            ),
            !old(self).is_validator(account_id) && old(self).validators@.len()
                >= old(self).config.max_validators ==> r == Err::<(), DexError>(
                DexError::TooManyValidatorAccounts,
            ),
            !old(self).is_validator(account_id) && old(self).validators@.len()
                < old(self).config.max_validators ==> r is Ok,
            r is Ok ==> {
                &&& *final(self) == (Marketplace {
                    validators: final(self).validators,
                    events: final(self).events,
                    ..*old(self)
                })
                &&& final(self).validators@ == old(self).validators@.push(account_id)
                &&& final(self).is_validator(account_id)
                &&& forall|c: AccountId|
                    #[trigger] final(self).is_validator(c) == (old(self).is_validator(c) || c
                        == account_id)
                &&& final(self).events@ == old(self).events@.push(
                    Event::ValidatorAccountAdded { account_id },
                )
            },
    {
        if Marketplace::contains_account(&self.validators, account_id) {
            return Err(DexError::ValidatorAccountAlreadyExists);
        }
        if self.validators.len() >= self.config.max_validators {
            return Err(DexError::TooManyValidatorAccounts);
        }
        let ghost pre = *self;
        self.validators.push(account_id);
        self.events.push(Event::ValidatorAccountAdded { account_id });
        proof {
            Marketplace::lemma_slack_bridge(pre, *self);
            assert forall|c: AccountId|
                #[trigger] self.is_validator(c) == (pre.is_validator(c) || c == account_id) by {
                if pre.is_validator(c) {
                    let j = choose|j: int|
                        0 <= j < pre.validators@.len() && pre.validators@[j] == c;
                    assert(self.validators@[j] == c);
                } else if c == account_id {
                    assert(self.validators@[pre.validators@.len() as int] == c);
                } else if self.is_validator(c) {
                    let j = choose|j: int|
                        0 <= j < self.validators@.len() && self.validators@[j] == c;
                    assert(pre.validators@[j] == c);
                }
            }
        }
        Ok(())
    }

    /// Removes `account_id` from the validator set; removing an absent
    /// account is a silent no-op, as administrative cleanup should be.
    pub fn force_remove_validator_account(&mut self, account_id: AccountId) -> (r: Result<
        (),
        DexError,
    >)
        requires
            old(self).wf(),
        ensures
            final(self).wf(),
            old(self).balanced() ==> final(self).balanced(),
            r is Ok,
            !final(self).is_validator(account_id),
            forall|c: AccountId|
                c != account_id ==> #[trigger] final(self).is_validator(c) == old(
                    self,
                ).is_validator(c),
            *final(self) == (Marketplace {
                validators: final(self).validators,
                events: final(self).events,
                ..*old(self)
            }),
            !old(self).is_validator(account_id) ==> *final(self) == *old(self),
            old(self).is_validator(account_id) ==> {
                &&& final(self).validators@.len() == old(self).validators@.len() - 1
                &&& final(self).events@ == old(self).events@.push(
                    Event::ValidatorAccountRemoved { account_id },
                )
            },
    {
        let n = self.validators.len();
        let mut k: usize = 0;
        while k < n
            invariant
                n == self.validators@.len(),
                0 <= k <= n,
                *self == *old(self),
                old(self).wf(),
                forall|j: int| 0 <= j < k ==> self.validators@[j] != account_id,
            decreases n - k,
        {
            if self.validators[k] == account_id {
                let ghost pre = *self;
                self.validators.remove(k);
                self.events.push(Event::ValidatorAccountRemoved { account_id });
                proof {
                    Marketplace::lemma_slack_bridge(pre, *self);
                    assert(self.validators@ == pre.validators@.remove(k as int));
                    assert forall|i: int, j: int| 0 <= i < j < self.validators@.len()
                        implies self.validators@[i] != self.validators@[j] by {
                        let i0 = if i < k as int { i } else { i + 1 };
                        let j0 = if j < k as int { j } else { j + 1 };
                        assert(self.validators@[i] == pre.validators@[i0]);
                        assert(self.validators@[j] == pre.validators@[j0]);
                    }
                    assert forall|j: int| 0 <= j < self.validators@.len()
                        implies self.validators@[j] != account_id by {
                        let j0 = if j < k as int { j } else { j + 1 };
                        assert(self.validators@[j] == pre.validators@[j0]);
                        if j0 > k as int {
                            assert(pre.validators@[k as int] != pre.validators@[j0]);
                        }
                    }
                    assert(!self.is_validator(account_id));
                    assert forall|c: AccountId| c != account_id
                        implies #[trigger] self.is_validator(c) == pre.is_validator(c) by {
                        if pre.is_validator(c) {
                            let j = choose|j: int|
                                0 <= j < pre.validators@.len() && pre.validators@[j] == c;
                            let j1 = if j < k as int { j } else { j - 1 };
                            assert(self.validators@[j1] == c);
                        } else if self.is_validator(c) {
                            let j = choose|j: int|
                                0 <= j < self.validators@.len() && self.validators@[j] == c;
                            let j0 = if j < k as int { j } else { j + 1 };
                            assert(pre.validators@[j0] == c);
                        }
                    }
                }
                return Ok(());
            }
            k += 1;
        }
        proof {
            assert(!self.is_validator(account_id));
        }
        Ok(())
    }

    /// Sets the quorum threshold; refused at zero.
    pub fn force_set_min_validations(&mut self, min_validators: u32) -> (r: Result<(), DexError>)
        requires
            old(self).wf(),
        ensures
            final(self).wf(),
            old(self).balanced() ==> final(self).balanced(),
            r is Ok <==> min_validators > 0,
            r is Err ==> *final(self) == *old(self) && r->Err_0
                == DexError::MinValidatorsCannotBeZero,
            r is Ok ==> *final(self) == (Marketplace {
                min_payment_validators: min_validators,
                ..*old(self)
            }),
    {
        if min_validators == 0 {
            return Err(DexError::MinValidatorsCannotBeZero);
        }
        let ghost pre = *self;
        self.min_payment_validators = min_validators;
        proof {
            Marketplace::lemma_slack_bridge(pre, *self);
        }
        Ok(())
    }

    /// Configures the account that may report executed payouts.
    pub fn force_set_seller_payout_authority(&mut self, authority: AccountId) -> (r: Result<
        (),
        DexError,
    >)
        requires
            old(self).wf(),
        ensures
            final(self).wf(),
            old(self).balanced() ==> final(self).balanced(),
            r is Ok,
            *final(self) == (Marketplace {
                payout_authority: Some(authority),
                events: final(self).events,
                ..*old(self)
            }),
            final(self).events@ == old(self).events@.push(
                Event::SellerPayoutAuthoritySet { authority },
            ),
    {
        let ghost pre = *self;
        self.payout_authority = Some(authority);
        self.events.push(Event::SellerPayoutAuthoritySet { authority });
        proof {
            Marketplace::lemma_slack_bridge(pre, *self);
        }
        Ok(())
    }

    /// Stores `seller`'s payout preference, or clears it when `preference`
    /// is absent; an unconditional upsert or removal either way.
    pub fn set_seller_payout_preference(
        &mut self,
        seller: AccountId,
        preference: Option<PayoutPreference>,
    ) -> (r: Result<(), DexError>)
        requires
            old(self).wf(),
        ensures
            final(self).wf(),
            old(self).balanced() ==> final(self).balanced(),
            r is Ok,
            *final(self) == (Marketplace {
                payout_preferences: final(self).payout_preferences,
                events: final(self).events,
                ..*old(self)
            }),
            match preference {
                Some(p) => final(self).preference_of(seller) matches Some(e)
                    && pref_view(e.preference) == pref_view(p),
                None => final(self).preference_of(seller) is None,
            },
            forall|s: AccountId|
                s != seller ==> #[trigger] final(self).preference_of(s) == old(self).preference_of(
                    s,
                ),
            final(self).events@ == old(self).events@.push(
                Event::SellerPayoutPreferenceSet { seller, preference },
            ),
    {
        let ghost pre = *self;
        match preference {
            Some(p) => {
                let stored = PayoutPreference {
                    channel_id: p.channel_id,
                    address: clone_bytes(&p.address),
                };
                let entry = PreferenceEntry { seller, preference: stored };
                match self.find_pref_index(seller) {
                    Some(i) => {
                        self.payout_preferences[i] = entry;
                        proof {
                            lemma_find_key_update(
                                pre.payout_preferences@,
                                pref_seller_of(),
                                i as int,
                                entry,
                            );
                        }
                    },
                    None => {
                        self.payout_preferences.push(entry);
                        proof {
                            assert forall|j: int| 0 <= j < pre.payout_preferences@.len()
                                implies #[trigger] pref_seller_of()(pre.payout_preferences@[j])
                                    != pref_seller_of()(entry) by {
                                assert(pre.payout_preferences@[j].seller != seller);
                            }
                            lemma_find_key_push(pre.payout_preferences@, pref_seller_of(), entry);
                        }
                    },
                }
                self.events.push(Event::SellerPayoutPreferenceSet { seller, preference: Some(p) });
                proof {
                    Marketplace::lemma_slack_bridge(pre, *self);
                    assert(pref_seller_of()(entry) == seller);
                }
                Ok(())
            },
            None => {
                match self.find_pref_index(seller) {
                    Some(i) => {
                        self.payout_preferences.remove(i);
                        proof {
                            lemma_find_key_remove(
                                pre.payout_preferences@,
                                pref_seller_of(),
                                i as int,
                            );
                            assert(pref_seller_of()(pre.payout_preferences@[i as int]) == seller);
                        }
                    },
                    None => {
                        proof {
                            self.lemma_pref_absent(seller);
                        }
                    },
                }
                self.events.push(Event::SellerPayoutPreferenceSet { seller, preference: None });
                proof {
                    Marketplace::lemma_slack_bridge(pre, *self);
                }
                Ok(())
            },
        }
    }

    /// The exact outcome of `record_payment_to_seller`.
    pub open spec fn record_payment_result(
        self,
        authority: AccountId,
        seller: AccountId,
        amount: u128,
    ) -> Result<(), DexError> {
        match self.payout_authority {
            None => Err(DexError::SellerPayoutAuthorityNotSet),
            Some(expected) => {
                if authority != expected {
                    Err(DexError::NotSellerPayoutAuthority)
                } else {
                    match self.receivable_of(seller) {
                        None => Err(DexError::NoReceivables),
                        Some(rec) => {
                            if amount > rec.amount {
                                Err(DexError::ReceivableLessThanPayment)
                            } else {
                                Ok(())
                            }
                        },
                    }
                }
            },
        }
    }

    /// Records a payout the configured authority executed off-system:
    /// deducts it from the seller's receivable and deposits a notification.
    /// Only the running balance stays on the ledger; callers retain the
    /// payout history themselves.
    pub fn record_payment_to_seller(
        &mut self,
        authority: AccountId,
        seller: AccountId,
        payout: Payout,
    ) -> (r: Result<(), DexError>)
        requires
            old(self).wf(),
        ensures
            final(self).wf(),
            old(self).balanced() ==> final(self).balanced(),
            r == old(self).record_payment_result(authority, seller, payout.amount),
            r is Err ==> *final(self) == *old(self),
            r is Ok ==> ({
                let rec = old(self).receivable_of(seller)->Some_0;
                &&& *final(self) == (Marketplace {
                    receivables: final(self).receivables,
                    events: final(self).events,
                    ..*old(self)
                })
                &&& final(self).receivable_of(seller) == Some(
                    Receivable { seller, amount: (rec.amount - payout.amount) as u128 },
                )
                &&& forall|s: AccountId|
                    s != seller ==> #[trigger] final(self).receivable_of(s) == old(
                        self,
                    ).receivable_of(s)
                &&& final(self).events@ == old(self).events@.push(
                    Event::SellerPayoutExecuted { seller, payout },
                )
            }),
    {
        let expected = match self.payout_authority {
            Some(a) => a,
            None => {
                return Err(DexError::SellerPayoutAuthorityNotSet);
            },
        };
        if authority != expected {
            return Err(DexError::NotSellerPayoutAuthority);
        }
        let i = match self.find_recv_index(seller) {
            Some(i) => i,
            None => {
                proof {
                    self.lemma_recv_absent(seller);
                }
                return Err(DexError::NoReceivables);
            },
        };
        proof {
            self.lemma_recv_at(i as int);
        }
        let rec = self.receivables[i];
        if payout.amount > rec.amount {
            return Err(DexError::ReceivableLessThanPayment);
        }
        let ghost pre = *self;
        let updated = Receivable { seller, amount: rec.amount - payout.amount };
        self.receivables[i] = updated;
        self.events.push(Event::SellerPayoutExecuted { seller, payout });
        proof {
            Marketplace::lemma_slack_bridge(pre, *self);
            lemma_find_key_update(pre.receivables@, recv_seller_of(), i as int, updated);
            assert(recv_seller_of()(updated) == seller);
        }
        Ok(())
    }

    /// Sets the tier limit on open-order units for `level`.
    pub fn force_set_open_order_allowed_limits(&mut self, level: UserLevel, limit: u128) -> (r:
        Result<(), DexError>)
        requires
            old(self).wf(),
        ensures
            final(self).wf(),
            old(self).balanced() ==> final(self).balanced(),
            r is Ok,
            *final(self) == (Marketplace {
                open_order_units_allowed: Some(limit),
                events: final(self).events,
                ..*old(self)
            }),
            final(self).events@ == old(self).events@.push(
                Event::UserOpenOrderUnitsLimitUpdated { level, limit },
            ),
    {
        let ghost pre = *self;
        match level {
            UserLevel::KycLevel1 => {
                self.open_order_units_allowed = Some(limit);
            },
        }
        self.events.push(Event::UserOpenOrderUnitsLimitUpdated { level, limit });
        proof {
            Marketplace::lemma_slack_bridge(pre, *self);
        }
        Ok(())
    }

    /// Clears `user`'s open-order index entirely.
    pub fn force_clear_buy_orders_per_user(&mut self, user: AccountId) -> (r: Result<(), DexError>)
        requires
            old(self).wf(),
        ensures
            final(self).wf(),
            old(self).balanced() ==> final(self).balanced(),
            r is Ok,
            *final(self) == (Marketplace {
                exposure: final(self).exposure,
                events: final(self).events,
                ..*old(self)
            }),
            final(self).exposure_units(user) == 0,
            forall|b: AccountId|
                b != user ==> #[trigger] final(self).exposure_list(b) == old(self).exposure_list(b),
            final(self).events@ == old(self).events@.push(Event::BuyOrdersByUserCleared { user }),
    {
        let ghost pre = *self;
        match self.find_expo_index(user) {
            Some(i) => {
                self.exposure.remove(i);
                proof {
                    lemma_find_key_remove(pre.exposure@, expo_buyer_of(), i as int);
                    assert(expo_buyer_of()(pre.exposure@[i as int]) == user);
                    assert forall|ii: int| 0 <= ii < self.exposure@.len()
                        implies exposure_entry_wf_holds(*self, ii) by {
                        let i0 = if ii < i as int { ii } else { ii + 1 };
                        assert(self.exposure@[ii] == pre.exposure@[i0]);
                    }
                }
            },
            None => {
                proof {
                    self.lemma_expo_absent(user);
                }
            },
        }
        self.events.push(Event::BuyOrdersByUserCleared { user });
        proof {
            Marketplace::lemma_slack_bridge(pre, *self);
            if find_by(self.exposure@, key_pred(expo_buyer_of(), user)) is None {
                crate::sums::lemma_sum_by_zero(
                    Seq::<crate::types::OpenOrder>::empty(),
                    crate::market::open_units_contrib(),
                );
            }
        }
        Ok(())
    }
}

/// The per-entry exposure invariant, restated for index `i`.
pub open spec fn exposure_entry_wf_holds(m: Marketplace, i: int) -> bool {
    crate::market::exposure_entry_wf(m.exposure@[i], m.config)
}

} // verus!
