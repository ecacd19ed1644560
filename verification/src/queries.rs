//! Read-only views of the marketplace state.

use vstd::prelude::*;
use crate::market::{open_units_contrib, Marketplace};
use crate::sums::sum_by;
use crate::types::{
    AccountId, BuyOrder, BuyOrderId, DexError, OpenOrder, OrderId, PayoutPreference, SellOrder,
};

verus! {

impl Marketplace {
    /// The live sell order carrying `id`, if any.
    pub fn order_info(&self, id: OrderId) -> (r: Option<SellOrder>)
        requires
            self.wf(),
        ensures
            r == self.sell_order(id),
    {
        match self.find_sell_index(id) {
            Some(i) => {
                proof {
                    self.lemma_sell_at(i as int);
                }
                Some(self.orders[i])
            },
            None => {
                proof {
                    self.lemma_sell_absent(id);
                }
                None
            },
        }
    }

    /// The pending buy order carrying `id`, if any.
    pub fn buy_order_info(&self, id: BuyOrderId) -> (r: Option<&BuyOrder>)
        requires
            self.wf(),
        ensures
            match r {
                Some(b) => self.buy_order(id) == Some(*b),
                None => self.buy_order(id) is None,
            },
    {
        match self.find_buy_index(id) {
            Some(i) => {
                proof {
                    self.lemma_buy_at(i as int);
                }
                Some(&self.buy_orders[i])
            },
            None => {
                proof {
                    self.lemma_buy_absent(id);
                }
                None
            },
        }
    }

    /// The receivable balance accrued to `seller`, if a record exists.
    pub fn seller_receivable(&self, seller: AccountId) -> (r: Option<u128>)
        requires
            self.wf(),
        ensures
            match r {
                Some(amount) => self.receivable_of(seller) matches Some(rec) && rec.amount
                    == amount,
                None => self.receivable_of(seller) is None,
            },
    {
        match self.find_recv_index(seller) {
            Some(i) => {
                proof {
                    self.lemma_recv_at(i as int);
                }
                Some(self.receivables[i].amount)
            },
            None => {
                proof {
                    self.lemma_recv_absent(seller);
                }
                None
            },
        }
    }

    /// The reservations open under `buyer`, oldest first.
    pub fn open_orders_of(&self, buyer: AccountId) -> (r: Vec<OpenOrder>)
        requires
            self.wf(),
        ensures
            r@ == self.exposure_list(buyer),
    {
        match self.find_expo_index(buyer) {
            Some(i) => {
                proof {
                    self.lemma_expo_at(i as int);
                }
                let src = &self.exposure[i].open;
                let n = src.len();
                let mut out: Vec<OpenOrder> = Vec::new();
                let mut k: usize = 0;
                while k < n
                    invariant
                        n == src@.len(),
                        0 <= k <= n,
                        out@ == src@.take(k as int),
                    decreases n - k,
                {
                    out.push(src[k]);
                    proof {
                        assert(out@ =~= src@.take(k as int + 1));
                    }
                    k += 1;
                }
                proof {
                    assert(out@ =~= src@);
                }
                out
            },
            None => {
                proof {
                    self.lemma_expo_absent(buyer);
                }
                Vec::new()
            },
        }
    }

    /// Units `buyer` has reserved but not yet settled.
    pub fn exposure_units_of(&self, buyer: AccountId) -> (r: u128)
        requires
            self.wf(),
        ensures
            r == self.exposure_units(buyer),
    {
        match self.find_expo_index(buyer) {
            Some(i) => {
                proof {
                    self.lemma_expo_at(i as int);
                }
                Marketplace::sum_open_units(&self.exposure[i].open)
            },
            None => {
                proof {
                    self.lemma_expo_absent(buyer);
                }
                0
            },
        }
    }

    /// The payout preference `seller` has stored, if any.
    pub fn seller_payout_preference(&self, seller: AccountId) -> (r: Option<&PayoutPreference>)
        requires
            self.wf(),
        ensures
            match r {
                Some(p) => self.preference_of(seller) matches Some(e) && e.preference == *p,
                None => self.preference_of(seller) is None,
            },
    {
        match self.find_pref_index(seller) {
            Some(i) => {
                proof {
                    self.lemma_pref_at(i as int);
                }
                Some(&self.payout_preferences[i].preference)
            },
            None => {
                proof {
                    self.lemma_pref_absent(seller);
                }
                None
            },
        }
    }

    /// Refuses callers that are not registered validator accounts.
    pub fn check_validator_account(&self, account_id: AccountId) -> (r: Result<(), DexError>)
        ensures
            r is Ok <==> self.is_validator(account_id),
            r is Err ==> r->Err_0 == DexError::NotAuthorised,
    {
        if Marketplace::contains_account(&self.validators, account_id) {
            Ok(())
        } else {
            Err(DexError::NotAuthorised)
        }
    }

    /// Refuses callers that are not on the identity allow-list.
    pub fn check_kyc_approval(&self, account_id: AccountId) -> (r: Result<(), DexError>)
        ensures
            r is Ok <==> self.is_kyc_approved(account_id),
            r is Err ==> r->Err_0 == DexError::KYCAuthorisationFailed,
    {
        if Marketplace::contains_account(&self.kyc_members, account_id) {
            Ok(())
        } else {
            Err(DexError::KYCAuthorisationFailed)
        }
    }
}

} // verus!
