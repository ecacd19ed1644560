//! The custody ledger: per-account holdings of each asset, plus the
//! per-asset escrow pool the marketplace itself holds between listing and
//! settlement or cancellation.

use vstd::prelude::*;
use crate::sums::{
    lemma_sum_by_nonneg, lemma_sum_by_push, lemma_sum_by_single, lemma_sum_by_update,
    lemma_sum_by_zero, sum_by,
};
use crate::types::{AccountId, AssetId};

verus! {

/// One account's holding of one asset.
#[derive(Clone, Copy, PartialEq, Eq, Structural, Debug)]
pub struct BalanceEntry {
    /// The held asset.
    pub asset: AssetId,
    /// The holding account.
    pub account: AccountId,
    /// Units held.
    pub amount: u128,
}

/// The escrow pool for one asset.
#[derive(Clone, Copy, PartialEq, Eq, Structural, Debug)]
pub struct EscrowEntry {
    /// The escrowed asset.
    pub asset: AssetId,
    /// Units held in escrow.
    pub amount: u128,
}

/// Why a custody move was refused.
#[derive(Clone, Copy, PartialEq, Eq, Structural, Debug)]
pub enum CustodyError {
    /// The source holding does not cover the move.
    InsufficientBalance,
    /// The destination holding cannot take the move without overflow.
    BalanceOverflow,
}

/// Contribution of one balance entry to the holding of `(asset, account)`.
pub open spec fn balance_contrib(asset: AssetId, account: AccountId) -> spec_fn(
    BalanceEntry,
) -> int {
    |e: BalanceEntry|
        if e.asset == asset && e.account == account {
            e.amount as int
        } else {
            0
        }
}

/// Contribution of one escrow entry to the escrow pool of `asset`.
pub open spec fn escrow_contrib(asset: AssetId) -> spec_fn(EscrowEntry) -> int {
    |e: EscrowEntry|
        if e.asset == asset {
            e.amount as int
        } else {
            0
        }
}

/// A fungible-asset ledger with a designated escrow pool per asset.
#[derive(Clone, Debug)]
pub struct AssetLedger {
    /// Account holdings; at most one entry per `(asset, account)` pair.
    pub balances: Vec<BalanceEntry>,
    /// Escrow pools; at most one entry per asset.
    pub escrows: Vec<EscrowEntry>,
}

impl AssetLedger {
    /// Units of `asset` held by `account`.
    pub open spec fn balance_of(self, asset: AssetId, account: AccountId) -> int {
        sum_by(self.balances@, balance_contrib(asset, account))
    }

    /// Units of `asset` held in escrow.
    pub open spec fn escrowed_of(self, asset: AssetId) -> int {
        sum_by(self.escrows@, escrow_contrib(asset))
    }

    /// Each holding and each pool is recorded by at most one entry.
    pub open spec fn wf(self) -> bool {
        &&& forall|i: int, j: int|
            0 <= i < j < self.balances@.len()
                ==> !(#[trigger] self.balances@[i].asset == #[trigger] self.balances@[j].asset
                    && self.balances@[i].account == self.balances@[j].account)
        &&& forall|i: int, j: int|
            0 <= i < j < self.escrows@.len()
                ==> #[trigger] self.escrows@[i].asset != #[trigger] self.escrows@[j].asset
    }

    /// A recorded holding is exactly its entry's amount.
    proof fn lemma_balance_at(self, i: int)
        requires
            self.wf(),
            0 <= i < self.balances@.len(),
        ensures
            self.balance_of(self.balances@[i].asset, self.balances@[i].account)
                == self.balances@[i].amount,
    {
        let e = self.balances@[i];
        lemma_sum_by_single(self.balances@, balance_contrib(e.asset, e.account), i);
    }

    /// An unrecorded holding is zero.
    proof fn lemma_balance_absent(self, asset: AssetId, account: AccountId)
        requires
            forall|j: int|
                0 <= j < self.balances@.len()
                    ==> !(#[trigger] self.balances@[j].asset == asset
                        && self.balances@[j].account == account),
        ensures
            self.balance_of(asset, account) == 0,
    {
        lemma_sum_by_zero(self.balances@, balance_contrib(asset, account));
    }

    /// A recorded pool is exactly its entry's amount.
    proof fn lemma_escrow_at(self, i: int)
        requires
            self.wf(),
            0 <= i < self.escrows@.len(),
        ensures
            self.escrowed_of(self.escrows@[i].asset) == self.escrows@[i].amount,
    {
        let e = self.escrows@[i];
        lemma_sum_by_single(self.escrows@, escrow_contrib(e.asset), i);
    }

    /// An unrecorded pool is zero.
    proof fn lemma_escrow_absent(self, asset: AssetId)
        requires
            forall|j: int| 0 <= j < self.escrows@.len() ==> #[trigger] self.escrows@[j].asset != asset,
        ensures
            self.escrowed_of(asset) == 0,
    {
        lemma_sum_by_zero(self.escrows@, escrow_contrib(asset));
    }

    /// An empty ledger: nobody holds anything and nothing is escrowed.
    pub fn new() -> (r: AssetLedger)
        ensures
            r.wf(),
            forall|a: AssetId, c: AccountId| #[trigger] r.balance_of(a, c) == 0,
            forall|a: AssetId| #[trigger] r.escrowed_of(a) == 0,
    {
        let r = AssetLedger { balances: Vec::new(), escrows: Vec::new() };
        proof {
            assert forall|a: AssetId, c: AccountId| #[trigger] r.balance_of(a, c) == 0 by {
                r.lemma_balance_absent(a, c);
            }
            assert forall|a: AssetId| #[trigger] r.escrowed_of(a) == 0 by {
                r.lemma_escrow_absent(a);
            }
        }
        r
    }

    /// Units of `asset` held by `account`, as a machine value.
    pub fn balance_amount(&self, asset: AssetId, account: AccountId) -> (r: u128)
        requires
            self.wf(),
        ensures
            r == self.balance_of(asset, account),
    {
        let n = self.balances.len();
        let mut k: usize = 0;
        while k < n
            invariant
                n == self.balances@.len(),
                0 <= k <= n,
                self.wf(),
                forall|j: int|
                    0 <= j < k
                        ==> !(#[trigger] self.balances@[j].asset == asset
                            && self.balances@[j].account == account),
            decreases n - k,
        {
            if self.balances[k].asset == asset && self.balances[k].account == account {
                proof {
                    self.lemma_balance_at(k as int);
                }
                return self.balances[k].amount;
            }
            k += 1;
        }
        proof {
            self.lemma_balance_absent(asset, account);
        }
        0
    }

    /// Units of `asset` in escrow, as a machine value.
    pub fn escrowed_amount(&self, asset: AssetId) -> (r: u128)
        requires
            self.wf(),
        ensures
            r == self.escrowed_of(asset),
    {
        let n = self.escrows.len();
        let mut k: usize = 0;
        while k < n
            invariant
                n == self.escrows@.len(),
                0 <= k <= n,
                self.wf(),
                forall|j: int| 0 <= j < k ==> #[trigger] self.escrows@[j].asset != asset,
            decreases n - k,
        {
            if self.escrows[k].asset == asset {
                proof {
                    self.lemma_escrow_at(k as int);
                }
                return self.escrows[k].amount;
            }
            k += 1;
        }
        proof {
            self.lemma_escrow_absent(asset);
        }
        0
    }

    /// Index of the entry holding `(asset, account)`, if one exists.
    fn find_balance(&self, asset: AssetId, account: AccountId) -> (r: Option<usize>)
        ensures
            match r {
                Some(i) => i < self.balances@.len() && self.balances@[i as int].asset == asset
                    && self.balances@[i as int].account == account,
                None => forall|j: int|
                    0 <= j < self.balances@.len()
                        ==> !(#[trigger] self.balances@[j].asset == asset
                            && self.balances@[j].account == account),
            },
    {
        let n = self.balances.len();
        let mut k: usize = 0;
        while k < n
            invariant
                n == self.balances@.len(),
                0 <= k <= n,
                forall|j: int|
                    0 <= j < k
                        ==> !(#[trigger] self.balances@[j].asset == asset
                            && self.balances@[j].account == account),
            decreases n - k,
        {
            if self.balances[k].asset == asset && self.balances[k].account == account {
                return Some(k);
            }
            k += 1;
        }
        None
    }

    /// Index of the escrow pool of `asset`, if one exists.
    fn find_escrow(&self, asset: AssetId) -> (r: Option<usize>)
        ensures
            match r {
                Some(i) => i < self.escrows@.len() && self.escrows@[i as int].asset == asset,
                None => forall|j: int|
                    0 <= j < self.escrows@.len() ==> #[trigger] self.escrows@[j].asset != asset,
            },
    {
        let n = self.escrows.len();
        let mut k: usize = 0;
        while k < n
            invariant
                n == self.escrows@.len(),
                0 <= k <= n,
                forall|j: int| 0 <= j < k ==> #[trigger] self.escrows@[j].asset != asset,
            decreases n - k,
        {
            if self.escrows[k].asset == asset {
                return Some(k);
            }
            k += 1;
        }
        None
    }

    /// What every balance-changing operation leaves untouched: holdings of
    /// all other `(asset, account)` pairs.
    pub open spec fn other_balances_unchanged(
        pre: AssetLedger,
        post: AssetLedger,
        asset: AssetId,
        account: AccountId,
    ) -> bool {
        forall|a: AssetId, c: AccountId|
            !(a == asset && c == account) ==> #[trigger] post.balance_of(a, c) == pre.balance_of(
                a,
                c,
            )
    }

    /// Escrow pools of all assets other than `asset` are untouched.
    pub open spec fn other_escrows_unchanged(
        pre: AssetLedger,
        post: AssetLedger,
        asset: AssetId,
    ) -> bool {
        forall|a: AssetId| a != asset ==> #[trigger] post.escrowed_of(a) == pre.escrowed_of(a)
    }

    /// Writes `amount` into the holding of `(asset, account)`, growing the
    /// table if the pair is new. Internal: callers account for the change.
    fn set_balance(&mut self, asset: AssetId, account: AccountId, amount: u128)
        requires
            old(self).wf(),
        ensures
            final(self).wf(),
            final(self).balance_of(asset, account) == amount,
            AssetLedger::other_balances_unchanged(*old(self), *final(self), asset, account),
            final(self).escrows@ == old(self).escrows@,
    {
        let ghost pre = *self;
        match self.find_balance(asset, account) {
            Some(i) => {
                let entry = BalanceEntry { asset, account, amount };
                self.balances[i] = entry;
                proof {
                    assert(self.balances@ == pre.balances@.update(i as int, entry));
                    lemma_sum_by_update(
                        pre.balances@,
                        balance_contrib(asset, account),
                        i as int,
                        entry,
                    );
                    pre.lemma_balance_at(i as int);
                    assert(final(self).balance_of(asset, account) == amount);
                    assert forall|a: AssetId, c: AccountId| !(a == asset && c == account)
                        implies #[trigger] self.balance_of(a, c) == pre.balance_of(a, c) by {
                        lemma_sum_by_update(pre.balances@, balance_contrib(a, c), i as int, entry);
                    }
                }
            },
            None => {
                let entry = BalanceEntry { asset, account, amount };
                self.balances.push(entry);
                proof {
                    assert(self.balances@ == pre.balances@.push(entry));
                    lemma_sum_by_push(pre.balances@, balance_contrib(asset, account), entry);
                    pre.lemma_balance_absent(asset, account);
                    assert forall|a: AssetId, c: AccountId| !(a == asset && c == account)
                        implies #[trigger] self.balance_of(a, c) == pre.balance_of(a, c) by {
                        lemma_sum_by_push(pre.balances@, balance_contrib(a, c), entry);
                    }
                }
            },
        }
    }

    /// Writes `amount` into the escrow pool of `asset`, growing the table
    /// if the pool is new. Internal: callers account for the change.
    fn set_escrow(&mut self, asset: AssetId, amount: u128)
        requires
            old(self).wf(),
        ensures
            final(self).wf(),
            final(self).escrowed_of(asset) == amount,
            AssetLedger::other_escrows_unchanged(*old(self), *final(self), asset),
            final(self).balances@ == old(self).balances@,
    {
        let ghost pre = *self;
        match self.find_escrow(asset) {
            Some(i) => {
                let entry = EscrowEntry { asset, amount };
                self.escrows[i] = entry;
                proof {
                    assert(self.escrows@ == pre.escrows@.update(i as int, entry));
                    lemma_sum_by_update(pre.escrows@, escrow_contrib(asset), i as int, entry);
                    pre.lemma_escrow_at(i as int);
                    assert forall|a: AssetId| a != asset
                        implies #[trigger] self.escrowed_of(a) == pre.escrowed_of(a) by {
                        lemma_sum_by_update(pre.escrows@, escrow_contrib(a), i as int, entry);
                    }
                }
            },
            None => {
                let entry = EscrowEntry { asset, amount };
                self.escrows.push(entry);
                proof {
                    assert(self.escrows@ == pre.escrows@.push(entry));
                    lemma_sum_by_push(pre.escrows@, escrow_contrib(asset), entry);
                    pre.lemma_escrow_absent(asset);
                    assert forall|a: AssetId| a != asset
                        implies #[trigger] self.escrowed_of(a) == pre.escrowed_of(a) by {
                        lemma_sum_by_push(pre.escrows@, escrow_contrib(a), entry);
                    }
                }
            },
        }
    }

    /// Creates `amount` fresh units of `asset` in `account`'s holding;
    /// refused only when the holding would overflow.
    pub fn mint(&mut self, asset: AssetId, account: AccountId, amount: u128) -> (r: Result<
        (),
        CustodyError,
    >)
        requires
            old(self).wf(),
        ensures
            final(self).wf(),
            r is Ok <==> old(self).balance_of(asset, account) + amount <= u128::MAX,
            r is Ok ==> {
                &&& final(self).balance_of(asset, account)
                    == old(self).balance_of(asset, account) + amount
                &&& AssetLedger::other_balances_unchanged(*old(self), *final(self), asset, account)
                &&& final(self).escrows@ == old(self).escrows@
            },
            r is Err ==> *final(self) == *old(self) && r->Err_0 == CustodyError::BalanceOverflow,
    {
        let cur = self.balance_amount(asset, account);
        match cur.checked_add(amount) {
            Some(n) => {
                self.set_balance(asset, account, n);
                Ok(())
            },
            None => Err(CustodyError::BalanceOverflow),
        }
    }

    /// Moves `amount` of `asset` from `account`'s holding into escrow;
    /// refused when the holding does not cover it, or on pool overflow.
    pub fn transfer_to_escrow(&mut self, asset: AssetId, account: AccountId, amount: u128) -> (r:
        Result<(), CustodyError>)
        requires
            old(self).wf(),
        ensures
            final(self).wf(),
            r is Ok <==> old(self).balance_of(asset, account) >= amount && old(self).escrowed_of(
                asset,
            ) + amount <= u128::MAX,
            r is Ok ==> {
                &&& final(self).balance_of(asset, account)
                    == old(self).balance_of(asset, account) - amount
                &&& final(self).escrowed_of(asset) == old(self).escrowed_of(asset) + amount
                &&& AssetLedger::other_balances_unchanged(*old(self), *final(self), asset, account)
                &&& AssetLedger::other_escrows_unchanged(*old(self), *final(self), asset)
            },
            r is Err ==> *final(self) == *old(self),
            r is Err ==> r->Err_0 == (if old(self).balance_of(asset, account) < amount {
                CustodyError::InsufficientBalance
            } else {
                CustodyError::BalanceOverflow
            }),
    {
        let cur = self.balance_amount(asset, account);
        if cur < amount {
            return Err(CustodyError::InsufficientBalance);
        }
        let pool = self.escrowed_amount(asset);
        match pool.checked_add(amount) {
            Some(n) => {
                let ghost pre = *self;
                self.set_balance(asset, account, cur - amount);
                let ghost mid = *self;
                self.set_escrow(asset, n);
                proof {
                    assert(self.balances@ == mid.balances@);
                    assert(mid.escrows@ == pre.escrows@);
                    assert forall|a: AssetId, c: AccountId| !(a == asset && c == account)
                        implies #[trigger] self.balance_of(a, c) == pre.balance_of(a, c) by {
                        assert(mid.balance_of(a, c) == pre.balance_of(a, c));
                    }
                    assert forall|a: AssetId| a != asset
                        implies #[trigger] self.escrowed_of(a) == pre.escrowed_of(a) by {
                        assert(mid.escrowed_of(a) == pre.escrowed_of(a));
                    }
                }
                Ok(())
            },
            None => Err(CustodyError::BalanceOverflow),
        }
    }

    /// Moves `amount` of `asset` out of escrow into `account`'s holding;
    /// refused when the pool does not cover it, or on holding overflow.
    pub fn release_from_escrow(&mut self, asset: AssetId, account: AccountId, amount: u128) -> (r:
        Result<(), CustodyError>)
        requires
            old(self).wf(),
        ensures
            final(self).wf(),
            r is Ok <==> old(self).escrowed_of(asset) >= amount && old(self).balance_of(
                asset,
                account,
            ) + amount <= u128::MAX,
            r is Ok ==> {
                &&& final(self).balance_of(asset, account)
                    == old(self).balance_of(asset, account) + amount
                &&& final(self).escrowed_of(asset) == old(self).escrowed_of(asset) - amount
                &&& AssetLedger::other_balances_unchanged(*old(self), *final(self), asset, account)
                &&& AssetLedger::other_escrows_unchanged(*old(self), *final(self), asset)
            },
            r is Err ==> *final(self) == *old(self),
            r is Err ==> r->Err_0 == (if old(self).escrowed_of(asset) < amount {
                CustodyError::InsufficientBalance
            } else {
                CustodyError::BalanceOverflow
            }),
    {
        let pool = self.escrowed_amount(asset);
        if pool < amount {
            return Err(CustodyError::InsufficientBalance);
        }
        let cur = self.balance_amount(asset, account);
        match cur.checked_add(amount) {
            Some(n) => {
                let ghost pre = *self;
                self.set_escrow(asset, pool - amount);
                let ghost mid = *self;
                self.set_balance(asset, account, n);
                proof {
                    assert(self.escrows@ == mid.escrows@);
                    assert(mid.balances@ == pre.balances@);
                    assert forall|a: AssetId, c: AccountId| !(a == asset && c == account)
                        implies #[trigger] self.balance_of(a, c) == pre.balance_of(a, c) by {
                        assert(mid.balance_of(a, c) == pre.balance_of(a, c));
                    }
                    assert forall|a: AssetId| a != asset
                        implies #[trigger] self.escrowed_of(a) == pre.escrowed_of(a) by {
                        assert(mid.escrowed_of(a) == pre.escrowed_of(a));
                    }
                }
                Ok(())
            },
            None => Err(CustodyError::BalanceOverflow),
        }
    }

    /// Permanently removes `amount` of `asset` from `account`'s holding,
    /// as the retirement of credits does; refused when not covered.
    pub fn retire(&mut self, asset: AssetId, account: AccountId, amount: u128) -> (r: Result<
        (),
        CustodyError,
    >)
        requires
            old(self).wf(),
        ensures
            final(self).wf(),
            r is Ok <==> old(self).balance_of(asset, account) >= amount,
            r is Ok ==> {
                &&& final(self).balance_of(asset, account)
                    == old(self).balance_of(asset, account) - amount
                &&& AssetLedger::other_balances_unchanged(*old(self), *final(self), asset, account)
                &&& final(self).escrows@ == old(self).escrows@
            },
            r is Err ==> *final(self) == *old(self) && r->Err_0
                == CustodyError::InsufficientBalance,
    {
        let cur = self.balance_amount(asset, account);
        if cur < amount {
            return Err(CustodyError::InsufficientBalance);
        }
        self.set_balance(asset, account, cur - amount);
        Ok(())
    }
}

} // verus!
