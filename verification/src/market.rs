//! The marketplace state: order books, validator set, receivables,
//! exposure index, configuration, and the invariants every call preserves.

use vstd::prelude::*;
use crate::ledger::{AssetLedger, CustodyError};
use crate::sums::{
    find_by, key_pred, lemma_find_key_absent, lemma_find_key_at, lemma_find_key_push,
    lemma_find_key_update, lemma_sum_by_nonneg, lemma_sum_by_take_le, lemma_sum_by_take_step,
    sum_by, unique_keys,
};
use crate::types::{
    AccountId, AssetId, AssetProject, BuyOrder, BuyOrderId, Event, ExposureEntry, GroupId,
    MarketConfig, OpenOrder, OrderId, PreferenceEntry, ProjectId, Receivable, SellOrder,
};

verus! {

/// The key of a sell order: its identifier.
pub open spec fn sell_id_of() -> spec_fn(SellOrder) -> OrderId {
    |o: SellOrder| o.id
}

/// The key of a buy order: its identifier.
pub open spec fn buy_id_of() -> spec_fn(BuyOrder) -> BuyOrderId {
    |b: BuyOrder| b.id
}

/// The key of a receivable record: its seller.
pub open spec fn recv_seller_of() -> spec_fn(Receivable) -> AccountId {
    |r: Receivable| r.seller
}

/// The key of a stored preference: its seller.
pub open spec fn pref_seller_of() -> spec_fn(PreferenceEntry) -> AccountId {
    |p: PreferenceEntry| p.seller
}

/// The key of an exposure index: its buyer.
pub open spec fn expo_buyer_of() -> spec_fn(ExposureEntry) -> AccountId {
    |e: ExposureEntry| e.buyer
}

/// The key of a registry entry: its asset.
pub open spec fn asset_id_of() -> spec_fn(AssetProject) -> AssetId {
    |e: AssetProject| e.asset_id
}

/// The key of an open reservation: the buy order's identifier.
pub open spec fn open_id_of() -> spec_fn(OpenOrder) -> BuyOrderId {
    |o: OpenOrder| o.id
}

/// Matches the sell order with identifier `id`.
pub open spec fn sell_key(id: OrderId) -> spec_fn(SellOrder) -> bool {
    key_pred(sell_id_of(), id)
}

/// Matches the buy order with identifier `id`.
pub open spec fn buy_key(id: BuyOrderId) -> spec_fn(BuyOrder) -> bool {
    key_pred(buy_id_of(), id)
}

/// Matches the receivable record of `seller`.
pub open spec fn recv_key(seller: AccountId) -> spec_fn(Receivable) -> bool {
    key_pred(recv_seller_of(), seller)
}

/// Matches the payout preference of `seller`.
pub open spec fn pref_key(seller: AccountId) -> spec_fn(PreferenceEntry) -> bool {
    key_pred(pref_seller_of(), seller)
}

/// Matches the exposure index of `buyer`.
pub open spec fn expo_key(buyer: AccountId) -> spec_fn(ExposureEntry) -> bool {
    key_pred(expo_buyer_of(), buyer)
}

/// Matches the registry entry of `asset`.
pub open spec fn asset_key(asset: AssetId) -> spec_fn(AssetProject) -> bool {
    key_pred(asset_id_of(), asset)
}

/// Contribution of one open reservation to a buyer's exposure.
pub open spec fn open_units_contrib() -> spec_fn(OpenOrder) -> int {
    |o: OpenOrder| o.units as int
}

/// Units reserved by a list of open reservations.
pub open spec fn open_units(s: Seq<OpenOrder>) -> int {
    sum_by(s, open_units_contrib())
}

/// Contribution of one sell order to the listed units of `asset`.
pub open spec fn order_units_contrib(asset: AssetId) -> spec_fn(SellOrder) -> int {
    |o: SellOrder|
        if o.asset_id == asset {
            o.units as int
        } else {
            0
        }
}

/// Contribution of one buy order to the pending units of `asset`.
pub open spec fn buy_units_contrib(asset: AssetId) -> spec_fn(BuyOrder) -> int {
    |b: BuyOrder|
        if b.asset_id == asset {
            b.units as int
        } else {
            0
        }
}

/// No account appears twice.
pub open spec fn unique_accounts(s: Seq<AccountId>) -> bool {
    forall|i: int, j: int| 0 <= i < j < s.len() ==> s[i] != s[j]
}

/// Well-formedness of one buy order's attestation record.
pub open spec fn payment_info_wf(b: BuyOrder, config: MarketConfig) -> bool {
    match b.payment_info {
        None => true,
        Some(pi) => {
            &&& 1 <= pi.validators@.len() <= config.max_validators
            &&& unique_accounts(pi.validators@)
            &&& pi.tx_proof@.len() <= config.max_tx_proof_len
        },
    }
}

/// Well-formedness of one buyer's exposure index.
pub open spec fn exposure_entry_wf(e: ExposureEntry, config: MarketConfig) -> bool {
    &&& open_units(e.open@) <= u128::MAX
    &&& e.open@.len() <= config.max_open_orders_per_user
    &&& forall|k: int, l: int| 0 <= k < l < e.open@.len() ==> e.open@[k].id != e.open@[l].id
}

/// The whole marketplace: six keyed books, the custody ledger, the
/// configuration scalars, and the notification log.
#[derive(Clone, Debug)]
pub struct Marketplace {
    /// Static limits and minimums.
    pub config: MarketConfig,
    /// The custody ledger the marketplace moves balances on.
    pub ledger: AssetLedger,
    /// The identity allow-list; only approved accounts list or reserve.
    pub kyc_members: Vec<AccountId>,
    /// The asset registry: which assets are listable, and their project.
    pub asset_entries: Vec<AssetProject>,
    /// Next sell-order identifier.
    pub order_count: OrderId,
    /// Next buy-order identifier.
    pub buy_order_count: BuyOrderId,
    /// Payment-fee rate in whole percent.
    pub payment_fee_rate: u8,
    /// Flat purchase fee.
    pub purchase_fee: u128,
    /// Live sell orders.
    pub orders: Vec<SellOrder>,
    /// Pending buy orders.
    pub buy_orders: Vec<BuyOrder>,
    /// Accounts authorised to attest payments.
    pub validators: Vec<AccountId>,
    /// Distinct attestations required before settlement.
    pub min_payment_validators: u32,
    /// Accrued receivables by seller.
    pub receivables: Vec<Receivable>,
    /// The account allowed to report executed payouts, once configured.
    pub payout_authority: Option<AccountId>,
    /// Stored payout preferences by seller.
    pub payout_preferences: Vec<PreferenceEntry>,
    /// Open-order indexes by buyer.
    pub exposure: Vec<ExposureEntry>,
    /// Tier limit on one buyer's open units, once configured.
    pub open_order_units_allowed: Option<u128>,
    /// Notifications deposited by successful calls, oldest first.
    pub events: Vec<Event>,
}

impl Marketplace {
    /// The sell order with identifier `id`, if live.
    pub open spec fn sell_order(self, id: OrderId) -> Option<SellOrder> {
        find_by(self.orders@, sell_key(id))
    }

    /// The buy order with identifier `id`, if pending.
    pub open spec fn buy_order(self, id: BuyOrderId) -> Option<BuyOrder> {
        find_by(self.buy_orders@, buy_key(id))
    }

    /// The receivable record of `seller`, if any.
    pub open spec fn receivable_of(self, seller: AccountId) -> Option<Receivable> {
        find_by(self.receivables@, recv_key(seller))
    }

    /// The stored payout preference of `seller`, if any.
    pub open spec fn preference_of(self, seller: AccountId) -> Option<PreferenceEntry> {
        find_by(self.payout_preferences@, pref_key(seller))
    }

    /// The open reservations of `buyer`; empty when no index exists.
    pub open spec fn exposure_list(self, buyer: AccountId) -> Seq<OpenOrder> {
        match find_by(self.exposure@, expo_key(buyer)) {
            Some(e) => e.open@,
            None => Seq::empty(),
        }
    }

    /// Units `buyer` has reserved but not yet settled.
    pub open spec fn exposure_units(self, buyer: AccountId) -> int {
        open_units(self.exposure_list(buyer))
    }

    /// The receivable balance of `seller`; zero when no record exists.
    pub open spec fn recv_amount(self, seller: AccountId) -> int {
        match self.receivable_of(seller) {
            Some(r) => r.amount as int,
            None => 0,
        }
    }

    /// Project and group of `asset`, as the registry reports them.
    pub open spec fn project_details(self, asset: AssetId) -> Option<(ProjectId, GroupId)> {
        match find_by(self.asset_entries@, asset_key(asset)) {
            Some(e) => Some((e.project_id, e.group_id)),
            None => None,
        }
    }

    /// Whether `account` may attest payments.
    pub open spec fn is_validator(self, account: AccountId) -> bool {
        self.validators@.contains(account)
    }

    /// Whether `account` is on the identity allow-list.
    pub open spec fn is_kyc_approved(self, account: AccountId) -> bool {
        self.kyc_members@.contains(account)
    }

    /// Whether any buy order in `s` references the sell order `sell_id`.
    pub open spec fn references_sell(s: Seq<BuyOrder>, sell_id: OrderId) -> bool {
        exists|j: int| 0 <= j < s.len() && (#[trigger] s[j]).order_id == sell_id
    }

    /// Whether any pending buy order references the sell order `sell_id`,
    /// as a machine value.
    pub(crate) fn any_references_sell(v: &Vec<BuyOrder>, sell_id: OrderId) -> (r: bool)
        ensures
            r == Marketplace::references_sell(v@, sell_id),
    {
        let n = v.len();
        let mut k: usize = 0;
        while k < n
            invariant
                n == v@.len(),
                0 <= k <= n,
                forall|j: int| 0 <= j < k ==> (#[trigger] v@[j]).order_id != sell_id,
            decreases n - k,
        {
            if v[k].order_id == sell_id {
                return true;
            }
            k += 1;
        }
        false
    }

    /// Units of `asset` still listed across all sell orders.
    pub open spec fn listed_units(self, asset: AssetId) -> int {
        sum_by(self.orders@, order_units_contrib(asset))
    }

    /// Units of `asset` reserved by pending buy orders.
    pub open spec fn pending_units(self, asset: AssetId) -> int {
        sum_by(self.buy_orders@, buy_units_contrib(asset))
    }

    /// Escrowed units of `asset` beyond what the order books account for.
    /// Every call keeps this nonnegative; it grows only when an expiry
    /// sweep cannot credit units back to a vanished sell order.
    pub open spec fn slack(self, asset: AssetId) -> int {
        self.ledger.escrowed_of(asset) - self.listed_units(asset) - self.pending_units(asset)
    }

    /// Escrow covers the order books exactly: every escrowed unit is
    /// either still listed or reserved by a pending buy order.
    pub open spec fn balanced(self) -> bool {
        forall|a: AssetId| #[trigger] self.slack(a) == 0
    }

    /// Sell orders carry identifiers below the counter, each at most once.
    pub open spec fn sell_orders_wf(self) -> bool {
        &&& forall|i: int|
            0 <= i < self.orders@.len() ==> (#[trigger] self.orders@[i]).id < self.order_count
        &&& unique_keys(self.orders@, sell_id_of())
    }

    /// Buy orders carry identifiers below the counter, each at most once,
    /// reserve at least one unit, hold well-formed attestations, and
    /// reference a sell order that was once allocated and, while it lives,
    /// carries the same asset.
    pub open spec fn buy_orders_wf(self) -> bool {
        &&& forall|i: int|
            0 <= i < self.buy_orders@.len() ==> {
                let b = #[trigger] self.buy_orders@[i];
                &&& b.id < self.buy_order_count
                &&& b.units >= 1
                &&& payment_info_wf(b, self.config)
                &&& b.order_id < self.order_count
                &&& (self.sell_order(b.order_id) matches Some(so) ==> so.asset_id == b.asset_id)
            }
        &&& unique_keys(self.buy_orders@, buy_id_of())
    }

    /// Exposure indexes are keyed by buyer, each buyer at most once.
    pub open spec fn exposure_wf(self) -> bool {
        &&& forall|i: int|
            0 <= i < self.exposure@.len()
                ==> exposure_entry_wf(#[trigger] self.exposure@[i], self.config)
        &&& unique_keys(self.exposure@, expo_buyer_of())
        &&& forall|i: int, k: int|
            0 <= i < self.exposure@.len() && 0 <= k < self.exposure@[i].open@.len()
                ==> (#[trigger] self.exposure@[i].open@[k]).id < self.buy_order_count
    }

    /// Receivables are keyed by seller, each seller at most once.
    pub open spec fn receivables_unique(self) -> bool {
        unique_keys(self.receivables@, recv_seller_of())
    }

    /// Preferences are keyed by seller, each seller at most once.
    pub open spec fn prefs_unique(self) -> bool {
        unique_keys(self.payout_preferences@, pref_seller_of())
    }

    /// The registry knows each asset at most once.
    pub open spec fn assets_unique(self) -> bool {
        unique_keys(self.asset_entries@, asset_id_of())
    }

    /// The structural and conservation invariants of the marketplace.
    pub open spec fn wf(self) -> bool {
        &&& self.config.wf()
        &&& self.payment_fee_rate <= self.config.max_payment_fee
        &&& self.purchase_fee <= self.config.max_purchase_fee
        &&& self.min_payment_validators >= 1
        &&& self.ledger.wf()
        &&& self.sell_orders_wf()
        &&& self.buy_orders_wf()
        &&& unique_accounts(self.validators@)
        &&& self.validators@.len() <= self.config.max_validators
        &&& self.exposure_wf()
        &&& self.receivables_unique()
        &&& self.prefs_unique()
        &&& self.assets_unique()
        &&& forall|a: AssetId| #[trigger] self.slack(a) >= 0
    }

    /// When the ledger and both order books are untouched, per-asset
    /// slack is untouched, and exact balance carries over.
    pub proof fn lemma_slack_bridge(pre: Marketplace, post: Marketplace)
        requires
            post.ledger == pre.ledger,
            post.orders == pre.orders,
            post.buy_orders == pre.buy_orders,
        ensures
            forall|a: AssetId| #[trigger] post.slack(a) == pre.slack(a),
            forall|a: AssetId| #[trigger] post.listed_units(a) == pre.listed_units(a),
            forall|a: AssetId| #[trigger] post.pending_units(a) == pre.pending_units(a),
            pre.balanced() ==> post.balanced(),
            (forall|a: AssetId| #[trigger] pre.slack(a) >= 0) ==> (forall|a: AssetId|
                #[trigger] post.slack(a) >= 0),
    {
        assert forall|a: AssetId| #[trigger] post.slack(a) == pre.slack(a)
            && #[trigger] post.listed_units(a) == pre.listed_units(a)
            && #[trigger] post.pending_units(a) == pre.pending_units(a) by {
            assert(post.ledger.escrowed_of(a) == pre.ledger.escrowed_of(a));
            assert(post.listed_units(a) == pre.listed_units(a));
            assert(post.pending_units(a) == pre.pending_units(a));
        }
    }

    /// The sell order at index `i` is what lookup by its identifier finds.
    pub proof fn lemma_sell_at(self, i: int)
        requires
            self.sell_orders_wf(),
            0 <= i < self.orders@.len(),
        ensures
            self.sell_order(self.orders@[i].id) == Some(self.orders@[i]),
    {
        lemma_find_key_at(self.orders@, sell_id_of(), i);
        assert(sell_id_of()(self.orders@[i]) == self.orders@[i].id);

    }

    /// When no sell order carries `id`, lookup finds nothing.
    pub proof fn lemma_sell_absent(self, id: OrderId)
        requires
            forall|j: int| 0 <= j < self.orders@.len() ==> (#[trigger] self.orders@[j]).id != id,
        ensures
            self.sell_order(id) is None,
    {
        assert forall|j: int| 0 <= j < self.orders@.len()
            implies #[trigger] sell_id_of()(self.orders@[j]) != id by {
            assert(self.orders@[j].id != id);
        }
        lemma_find_key_absent(self.orders@, sell_id_of(), id);

    }

    /// The buy order at index `i` is what lookup by its identifier finds.
    pub proof fn lemma_buy_at(self, i: int)
        requires
            self.buy_orders_wf(),
            0 <= i < self.buy_orders@.len(),
        ensures
            self.buy_order(self.buy_orders@[i].id) == Some(self.buy_orders@[i]),
    {
        lemma_find_key_at(self.buy_orders@, buy_id_of(), i);
        assert(buy_id_of()(self.buy_orders@[i]) == self.buy_orders@[i].id);

    }

    /// When no buy order carries `id`, lookup finds nothing.
    pub proof fn lemma_buy_absent(self, id: BuyOrderId)
        requires
            forall|j: int|
                0 <= j < self.buy_orders@.len() ==> (#[trigger] self.buy_orders@[j]).id != id,
        ensures
            self.buy_order(id) is None,
    {
        assert forall|j: int| 0 <= j < self.buy_orders@.len()
            implies #[trigger] buy_id_of()(self.buy_orders@[j]) != id by {
            assert(self.buy_orders@[j].id != id);
        }
        lemma_find_key_absent(self.buy_orders@, buy_id_of(), id);

    }

    /// The receivable at index `i` is what lookup by its seller finds.
    pub proof fn lemma_recv_at(self, i: int)
        requires
            self.receivables_unique(),
            0 <= i < self.receivables@.len(),
        ensures
            self.receivable_of(self.receivables@[i].seller) == Some(self.receivables@[i]),
    {
        lemma_find_key_at(self.receivables@, recv_seller_of(), i);
        assert(recv_seller_of()(self.receivables@[i]) == self.receivables@[i].seller);

    }

    /// When no receivable names `seller`, lookup finds nothing.
    pub proof fn lemma_recv_absent(self, seller: AccountId)
        requires
            forall|j: int|
                0 <= j < self.receivables@.len()
                    ==> (#[trigger] self.receivables@[j]).seller != seller,
        ensures
            self.receivable_of(seller) is None,
    {
        assert forall|j: int| 0 <= j < self.receivables@.len()
            implies #[trigger] recv_seller_of()(self.receivables@[j]) != seller by {
            assert(self.receivables@[j].seller != seller);
        }
        lemma_find_key_absent(self.receivables@, recv_seller_of(), seller);

    }

    /// The preference at index `i` is what lookup by its seller finds.
    pub proof fn lemma_pref_at(self, i: int)
        requires
            self.prefs_unique(),
            0 <= i < self.payout_preferences@.len(),
        ensures
            self.preference_of(self.payout_preferences@[i].seller)
                == Some(self.payout_preferences@[i]),
    {
        lemma_find_key_at(self.payout_preferences@, pref_seller_of(), i);
        assert(pref_seller_of()(self.payout_preferences@[i])
            == self.payout_preferences@[i].seller);

    }

    /// When no preference names `seller`, lookup finds nothing.
    pub proof fn lemma_pref_absent(self, seller: AccountId)
        requires
            forall|j: int|
                0 <= j < self.payout_preferences@.len()
                    ==> (#[trigger] self.payout_preferences@[j]).seller != seller,
        ensures
            self.preference_of(seller) is None,
    {
        assert forall|j: int| 0 <= j < self.payout_preferences@.len()
            implies #[trigger] pref_seller_of()(self.payout_preferences@[j]) != seller by {
            assert(self.payout_preferences@[j].seller != seller);
        }
        lemma_find_key_absent(self.payout_preferences@, pref_seller_of(), seller);

    }

    /// The exposure index at `i` is what lookup by its buyer finds.
    pub proof fn lemma_expo_at(self, i: int)
        requires
            unique_keys(self.exposure@, expo_buyer_of()),
            0 <= i < self.exposure@.len(),
        ensures
            find_by(self.exposure@, expo_key(self.exposure@[i].buyer)) == Some(self.exposure@[i]),
            self.exposure_list(self.exposure@[i].buyer) == self.exposure@[i].open@,
    {
        lemma_find_key_at(self.exposure@, expo_buyer_of(), i);
        assert(expo_buyer_of()(self.exposure@[i]) == self.exposure@[i].buyer);

    }

    /// When no index names `buyer`, their exposure is empty.
    pub proof fn lemma_expo_absent(self, buyer: AccountId)
        requires
            forall|j: int|
                0 <= j < self.exposure@.len() ==> (#[trigger] self.exposure@[j]).buyer != buyer,
        ensures
            find_by(self.exposure@, expo_key(buyer)) is None,
            self.exposure_list(buyer) == Seq::<OpenOrder>::empty(),
            self.exposure_units(buyer) == 0,
    {
        assert forall|j: int| 0 <= j < self.exposure@.len()
            implies #[trigger] expo_buyer_of()(self.exposure@[j]) != buyer by {
            assert(self.exposure@[j].buyer != buyer);
        }
        lemma_find_key_absent(self.exposure@, expo_buyer_of(), buyer);

    }

    /// The registry entry at `i` is what lookup by its asset finds.
    pub proof fn lemma_asset_at(self, i: int)
        requires
            self.assets_unique(),
            0 <= i < self.asset_entries@.len(),
        ensures
            find_by(self.asset_entries@, asset_key(self.asset_entries@[i].asset_id))
                == Some(self.asset_entries@[i]),
            self.project_details(self.asset_entries@[i].asset_id)
                == Some((self.asset_entries@[i].project_id, self.asset_entries@[i].group_id)),
    {
        lemma_find_key_at(self.asset_entries@, asset_id_of(), i);
        assert(asset_id_of()(self.asset_entries@[i]) == self.asset_entries@[i].asset_id);

    }

    /// When the registry does not know `asset`, it reports no project.
    pub proof fn lemma_asset_absent(self, asset: AssetId)
        requires
            forall|j: int|
                0 <= j < self.asset_entries@.len()
                    ==> (#[trigger] self.asset_entries@[j]).asset_id != asset,
        ensures
            self.project_details(asset) is None,
    {
        assert forall|j: int| 0 <= j < self.asset_entries@.len()
            implies #[trigger] asset_id_of()(self.asset_entries@[j]) != asset by {
            assert(self.asset_entries@[j].asset_id != asset);
        }
        lemma_find_key_absent(self.asset_entries@, asset_id_of(), asset);

    }

    /// A fresh marketplace over `config`: empty books, empty ledger, no
    /// fees, and a quorum threshold of two.
    pub fn new(config: MarketConfig) -> (r: Marketplace)
        requires
            config.wf(),
        ensures
            r.wf(),
            r.balanced(),
            r.config == config,
            r.order_count == 0 && r.buy_order_count == 0,
            r.payment_fee_rate == 0 && r.purchase_fee == 0,
            r.min_payment_validators == 2,
            r.payout_authority is None,
            r.open_order_units_allowed is None,
            r.orders@.len() == 0 && r.buy_orders@.len() == 0,
            r.validators@.len() == 0 && r.receivables@.len() == 0,
            r.payout_preferences@.len() == 0 && r.exposure@.len() == 0,
            r.kyc_members@.len() == 0 && r.asset_entries@.len() == 0,
            r.events@.len() == 0,
            forall|a: AssetId, c: AccountId| #[trigger] r.ledger.balance_of(a, c) == 0,
            forall|a: AssetId| #[trigger] r.ledger.escrowed_of(a) == 0,
    {
        let r = Marketplace {
            config,
            ledger: AssetLedger::new(),
            kyc_members: Vec::new(),
            asset_entries: Vec::new(),
            order_count: 0,
            buy_order_count: 0,
            payment_fee_rate: 0,
            purchase_fee: 0,
            orders: Vec::new(),
            buy_orders: Vec::new(),
            validators: Vec::new(),
            min_payment_validators: 2,
            receivables: Vec::new(),
            payout_authority: None,
            payout_preferences: Vec::new(),
            exposure: Vec::new(),
            open_order_units_allowed: None,
            events: Vec::new(),
        };
        proof {
            assert forall|a: AssetId| #[trigger] r.slack(a) == 0 by {
                assert(r.ledger.escrowed_of(a) == 0);
                assert(r.listed_units(a) == 0);
                assert(r.pending_units(a) == 0);
            }
        }
        r
    }

    /// Adds `account` to the identity allow-list. Registry maintenance,
    /// not a marketplace call: it deposits no notification.
    pub fn add_kyc_member(&mut self, account: AccountId)
        requires
            old(self).wf(),
        ensures
            final(self).wf(),
            old(self).balanced() ==> final(self).balanced(),
            *final(self) == (Marketplace {
                kyc_members: final(self).kyc_members,
                ..*old(self)
            }),
            final(self).kyc_members@ == old(self).kyc_members@.push(account),
            final(self).is_kyc_approved(account),
            forall|c: AccountId|
                #[trigger] final(self).is_kyc_approved(c)
                    == (old(self).is_kyc_approved(c) || c == account),
    {
        let ghost pre = *self;
        self.kyc_members.push(account);
        proof {
            Marketplace::lemma_slack_bridge(pre, *self);
            assert forall|c: AccountId|
                #[trigger] self.is_kyc_approved(c)
                    == (pre.is_kyc_approved(c) || c == account) by {
                if pre.is_kyc_approved(c) {
                    let j = choose|j: int|
                        0 <= j < pre.kyc_members@.len() && pre.kyc_members@[j] == c;
                    assert(self.kyc_members@[j] == c);
                } else if c == account {
                    assert(self.kyc_members@[pre.kyc_members@.len() as int] == c);
                } else if self.is_kyc_approved(c) {
                    let j = choose|j: int|
                        0 <= j < self.kyc_members@.len() && self.kyc_members@[j] == c;
                    assert(pre.kyc_members@[j] == c);
                }
            }
        }
    }

    /// Records, or overwrites, the registry's verdict on `asset`:
    /// listable, belonging to `project_id` and `group_id`. Registry
    /// maintenance, not a marketplace call: it deposits no notification.
    pub fn register_asset(&mut self, asset: AssetId, project_id: ProjectId, group_id: GroupId)
        requires
            old(self).wf(),
        ensures
            final(self).wf(),
            old(self).balanced() ==> final(self).balanced(),
            *final(self) == (Marketplace {
                asset_entries: final(self).asset_entries,
                ..*old(self)
            }),
            final(self).project_details(asset) == Some((project_id, group_id)),
            forall|a: AssetId|
                a != asset ==> #[trigger] final(self).project_details(a)
                    == old(self).project_details(a),
    {
        let ghost pre = *self;
        let n = self.asset_entries.len();
        let mut k: usize = 0;
        while k < n
            invariant
                n == self.asset_entries@.len(),
                0 <= k <= n,
                *self == pre,
                pre == *old(self),
                pre.wf(),
                forall|j: int|
                    0 <= j < k ==> (#[trigger] self.asset_entries@[j]).asset_id != asset,
            decreases n - k,
        {
            let cur = self.asset_entries[k];
            if cur.asset_id == asset {
                proof {
                    assert(cur == pre.asset_entries@[k as int]);
                }
                let entry = AssetProject { asset_id: asset, project_id, group_id };
                self.asset_entries[k] = entry;
                proof {
                    assert(self.asset_entries@ == pre.asset_entries@.update(k as int, entry));
                    assert forall|j: int|
                        0 <= j < pre.asset_entries@.len() implies {
                        &&& (#[trigger] self.asset_entries@[j]).asset_id
                            == pre.asset_entries@[j].asset_id
                        &&& (self.asset_entries@[j].asset_id != asset
                            ==> self.asset_entries@[j] == pre.asset_entries@[j])
                    } by {
                        if j != k as int {
                            assert(self.asset_entries@[j] == pre.asset_entries@[j]);
                        } else {
                            assert(self.asset_entries@[j] == entry);
                            assert(pre.asset_entries@[j].asset_id == asset);
                        }
                    }
                    Marketplace::lemma_asset_registry_change(pre, *self, asset);
                    assert(self.asset_entries@[k as int] == entry);
                    self.lemma_asset_at(k as int);
                }
                return;
            }
            k += 1;
        }
        let entry = AssetProject { asset_id: asset, project_id, group_id };
        self.asset_entries.push(entry);
        proof {
            Marketplace::lemma_asset_registry_change(pre, *self, asset);
            self.lemma_asset_at(self.asset_entries@.len() - 1);
        }
    }

    /// A registry write touching only `asset` leaves everything else of
    /// the marketplace, and every other asset's registry answer, as it was.
    proof fn lemma_asset_registry_change(pre: Marketplace, post: Marketplace, asset: AssetId)
        requires
            pre.wf(),
            post == (Marketplace { asset_entries: post.asset_entries, ..pre }),
            pre.asset_entries@.len() <= post.asset_entries@.len() <= pre.asset_entries@.len() + 1,
            forall|j: int|
                0 <= j < pre.asset_entries@.len()
                    ==> (#[trigger] post.asset_entries@[j]).asset_id
                        == pre.asset_entries@[j].asset_id
                    && (post.asset_entries@[j].asset_id != asset
                        ==> post.asset_entries@[j] == pre.asset_entries@[j]),
            forall|j: int|
                pre.asset_entries@.len() <= j < post.asset_entries@.len()
                    ==> (#[trigger] post.asset_entries@[j]).asset_id == asset,
            post.asset_entries@.len() > pre.asset_entries@.len() ==> forall|j: int|
                0 <= j < pre.asset_entries@.len()
                    ==> (#[trigger] pre.asset_entries@[j]).asset_id != asset,
        ensures
            post.wf(),
            pre.balanced() ==> post.balanced(),
            forall|a: AssetId|
                a != asset ==> #[trigger] post.project_details(a) == pre.project_details(a),
    {
        Marketplace::lemma_slack_bridge(pre, post);
        assert forall|i: int, j: int| 0 <= i < j < post.asset_entries@.len()
            implies #[trigger] asset_id_of()(post.asset_entries@[i])
                != #[trigger] asset_id_of()(post.asset_entries@[j]) by {
            let n = pre.asset_entries@.len() as int;
            if j < n {
                assert(asset_id_of()(pre.asset_entries@[i]) != asset_id_of()(
                    pre.asset_entries@[j],
                ));
                assert(post.asset_entries@[i].asset_id == pre.asset_entries@[i].asset_id);
                assert(post.asset_entries@[j].asset_id == pre.asset_entries@[j].asset_id);
            } else {
                assert(post.asset_entries@[j].asset_id == asset);
                assert(pre.asset_entries@[i].asset_id != asset);
                assert(post.asset_entries@[i].asset_id == pre.asset_entries@[i].asset_id);
            }
        }
        assert(post.assets_unique());
        assert forall|a: AssetId| a != asset
            implies #[trigger] post.project_details(a) == pre.project_details(a) by {
            if exists|j: int|
                0 <= j < pre.asset_entries@.len() && (#[trigger] pre.asset_entries@[j]).asset_id
                    == a {
                let j = choose|j: int|
                    0 <= j < pre.asset_entries@.len()
                        && (#[trigger] pre.asset_entries@[j]).asset_id == a;
                pre.lemma_asset_at(j);
                assert(post.asset_entries@[j] == pre.asset_entries@[j]);
                post.lemma_asset_at(j);
            } else {
                pre.lemma_asset_absent(a);
                assert forall|j: int| 0 <= j < post.asset_entries@.len()
                    implies (#[trigger] post.asset_entries@[j]).asset_id != a by {
                    if j < pre.asset_entries@.len() {
                        assert(pre.asset_entries@[j].asset_id != a);
                    }
                }
                post.lemma_asset_absent(a);
            }
        }
    }

    /// Listed units of an order's asset cover that order's units.
    pub proof fn lemma_listed_ge_order(self, i: int)
        requires
            0 <= i < self.orders@.len(),
        ensures
            self.listed_units(self.orders@[i].asset_id) >= self.orders@[i].units,
    {
        let f = order_units_contrib(self.orders@[i].asset_id);
        assert(forall|j: int| 0 <= j < self.orders@.len() ==> #[trigger] f(self.orders@[j]) >= 0);
        crate::sums::lemma_sum_by_elem_le(self.orders@, f, i);
    }

    /// Pending units of a buy order's asset cover that order's units.
    pub proof fn lemma_pending_ge_buy(self, i: int)
        requires
            0 <= i < self.buy_orders@.len(),
        ensures
            self.pending_units(self.buy_orders@[i].asset_id) >= self.buy_orders@[i].units,
    {
        let f = buy_units_contrib(self.buy_orders@[i].asset_id);
        assert(forall|j: int|
            0 <= j < self.buy_orders@.len() ==> #[trigger] f(self.buy_orders@[j]) >= 0);
        crate::sums::lemma_sum_by_elem_le(self.buy_orders@, f, i);
    }

    /// Index of the sell order carrying `id`, if live.
    pub(crate) fn find_sell_index(&self, id: OrderId) -> (r: Option<usize>)
        ensures
            match r {
                Some(i) => i < self.orders@.len() && self.orders@[i as int].id == id,
                None => forall|j: int|
                    0 <= j < self.orders@.len() ==> (#[trigger] self.orders@[j]).id != id,
            },
    {
        let n = self.orders.len();
        let mut k: usize = 0;
        while k < n
            invariant
                n == self.orders@.len(),
                0 <= k <= n,
                forall|j: int| 0 <= j < k ==> (#[trigger] self.orders@[j]).id != id,
            decreases n - k,
        {
            if self.orders[k].id == id {
                return Some(k);
            }
            k += 1;
        }
        None
    }

    /// Index of the buy order carrying `id`, if pending.
    pub(crate) fn find_buy_index(&self, id: BuyOrderId) -> (r: Option<usize>)
        ensures
            match r {
                Some(i) => i < self.buy_orders@.len() && self.buy_orders@[i as int].id == id,
                None => forall|j: int|
                    0 <= j < self.buy_orders@.len() ==> (#[trigger] self.buy_orders@[j]).id != id,
            },
    {
        let n = self.buy_orders.len();
        let mut k: usize = 0;
        while k < n
            invariant
                n == self.buy_orders@.len(),
                0 <= k <= n,
                forall|j: int| 0 <= j < k ==> (#[trigger] self.buy_orders@[j]).id != id,
            decreases n - k,
        {
            if self.buy_orders[k].id == id {
                return Some(k);
            }
            k += 1;
        }
        None
    }

    /// Index of `seller`'s receivable record, if any.
    pub(crate) fn find_recv_index(&self, seller: AccountId) -> (r: Option<usize>)
        ensures
            match r {
                Some(i) => i < self.receivables@.len()
                    && self.receivables@[i as int].seller == seller,
                None => forall|j: int|
                    0 <= j < self.receivables@.len()
                        ==> (#[trigger] self.receivables@[j]).seller != seller,
            },
    {
        let n = self.receivables.len();
        let mut k: usize = 0;
        while k < n
            invariant
                n == self.receivables@.len(),
                0 <= k <= n,
                forall|j: int| 0 <= j < k ==> (#[trigger] self.receivables@[j]).seller != seller,
            decreases n - k,
        {
            if self.receivables[k].seller == seller {
                return Some(k);
            }
            k += 1;
        }
        None
    }

    /// Index of `seller`'s stored preference, if any.
    pub(crate) fn find_pref_index(&self, seller: AccountId) -> (r: Option<usize>)
        ensures
            match r {
                Some(i) => i < self.payout_preferences@.len()
                    && self.payout_preferences@[i as int].seller == seller,
                None => forall|j: int|
                    0 <= j < self.payout_preferences@.len()
                        ==> (#[trigger] self.payout_preferences@[j]).seller != seller,
            },
    {
        let n = self.payout_preferences.len();
        let mut k: usize = 0;
        while k < n
            invariant
                n == self.payout_preferences@.len(),
                0 <= k <= n,
                forall|j: int|
                    0 <= j < k ==> (#[trigger] self.payout_preferences@[j]).seller != seller,
            decreases n - k,
        {
            if self.payout_preferences[k].seller == seller {
                return Some(k);
            }
            k += 1;
        }
        None
    }

    /// Index of `buyer`'s exposure index, if one exists.
    pub(crate) fn find_expo_index(&self, buyer: AccountId) -> (r: Option<usize>)
        ensures
            match r {
                Some(i) => i < self.exposure@.len() && self.exposure@[i as int].buyer == buyer,
                None => forall|j: int|
                    0 <= j < self.exposure@.len() ==> (#[trigger] self.exposure@[j]).buyer != buyer,
            },
    {
        let n = self.exposure.len();
        let mut k: usize = 0;
        while k < n
            invariant
                n == self.exposure@.len(),
                0 <= k <= n,
                forall|j: int| 0 <= j < k ==> (#[trigger] self.exposure@[j]).buyer != buyer,
            decreases n - k,
        {
            if self.exposure[k].buyer == buyer {
                return Some(k);
            }
            k += 1;
        }
        None
    }

    /// Project and group of `asset`, as a machine value.
    pub fn project_details_lookup(&self, asset: AssetId) -> (r: Option<(ProjectId, GroupId)>)
        requires
            self.assets_unique(),
        ensures
            r == self.project_details(asset),
    {
        let n = self.asset_entries.len();
        let mut k: usize = 0;
        while k < n
            invariant
                n == self.asset_entries@.len(),
                0 <= k <= n,
                self.assets_unique(),
                forall|j: int|
                    0 <= j < k ==> (#[trigger] self.asset_entries@[j]).asset_id != asset,
            decreases n - k,
        {
            if self.asset_entries[k].asset_id == asset {
                proof {
                    self.lemma_asset_at(k as int);
                }
                return Some((self.asset_entries[k].project_id, self.asset_entries[k].group_id));
            }
            k += 1;
        }
        proof {
            self.lemma_asset_absent(asset);
        }
        None
    }

    /// Whether `account` occurs in `accounts`.
    pub(crate) fn contains_account(accounts: &Vec<AccountId>, account: AccountId) -> (r: bool)
        ensures
            r == accounts@.contains(account),
    {
        let n = accounts.len();
        let mut k: usize = 0;
        while k < n
            invariant
                n == accounts@.len(),
                0 <= k <= n,
                forall|j: int| 0 <= j < k ==> accounts@[j] != account,
            decreases n - k,
        {
            if accounts[k] == account {
                return true;
            }
            k += 1;
        }
        proof {
            assert(forall|j: int| 0 <= j < accounts@.len() ==> accounts@[j] != account);
        }
        false
    }

    /// Units reserved by the open-order list `v`, as a machine value.
    pub(crate) fn sum_open_units(v: &Vec<OpenOrder>) -> (r: u128)
        requires
            open_units(v@) <= u128::MAX,
        ensures
            r == open_units(v@),
    {
        proof {
            assert(forall|j: int|
                0 <= j < v@.len() ==> #[trigger] open_units_contrib()(v@[j]) >= 0);
        }
        let n = v.len();
        let mut acc: u128 = 0;
        let mut k: usize = 0;
        while k < n
            invariant
                n == v@.len(),
                0 <= k <= n,
                open_units(v@) <= u128::MAX,
                forall|j: int| 0 <= j < v@.len() ==> #[trigger] open_units_contrib()(v@[j]) >= 0,
                acc == sum_by(v@.take(k as int), open_units_contrib()),
            decreases n - k,
        {
            proof {
                lemma_sum_by_take_step(v@, open_units_contrib(), k as int);
                lemma_sum_by_take_le(v@, open_units_contrib(), k as int + 1);
                assert(open_units_contrib()(v@[k as int]) == v@[k as int].units);
            }
            acc = acc + v[k].units;
            k += 1;
        }
        proof {
            crate::sums::lemma_sum_by_take_all(v@, open_units_contrib());
        }
        acc
    }

    /// Drops the reservation `(id, units)` from `buyer`'s open-order
    /// index: the first matching pair leaves the list; when the buyer has
    /// no index yet an empty one is recorded, as the underlying store's
    /// fetch-or-default write would. Touches nothing but the exposure book.
    pub(crate) fn remove_open_entry(&mut self, buyer: AccountId, id: BuyOrderId, units: u128)
        requires
            unique_keys(old(self).exposure@, expo_buyer_of()),
            forall|i: int|
                0 <= i < old(self).exposure@.len()
                    ==> exposure_entry_wf(#[trigger] old(self).exposure@[i], old(self).config),
            forall|i: int, k: int|
                0 <= i < old(self).exposure@.len() && 0 <= k
                    < old(self).exposure@[i].open@.len()
                    ==> (#[trigger] old(self).exposure@[i].open@[k]).id
                        < old(self).buy_order_count,
        ensures
            *final(self) == (Marketplace { exposure: final(self).exposure, ..*old(self) }),
            unique_keys(final(self).exposure@, expo_buyer_of()),
            forall|i: int|
                0 <= i < final(self).exposure@.len()
                    ==> exposure_entry_wf(#[trigger] final(self).exposure@[i], final(self).config),
            forall|i: int, k: int|
                0 <= i < final(self).exposure@.len() && 0 <= k
                    < final(self).exposure@[i].open@.len()
                    ==> (#[trigger] final(self).exposure@[i].open@[k]).id
                        < final(self).buy_order_count,
            forall|c: AccountId|
                c != buyer ==> #[trigger] final(self).exposure_list(c) == old(self).exposure_list(
                    c,
                ),
            ({
                let l = old(self).exposure_list(buyer);
                let item = (OpenOrder { id, units });
                &&& (exists|m: int| 0 <= m < l.len() && l[m] == item) ==> exists|m: int|
                    0 <= m < l.len() && l[m] == item && final(self).exposure_list(buyer)
                        == l.remove(m)
                &&& !(exists|m: int| 0 <= m < l.len() && l[m] == item)
                    ==> final(self).exposure_list(buyer) == l
            }),
    {
        let ghost pre = *self;
        let ghost l = pre.exposure_list(buyer);
        match self.find_expo_index(buyer) {
            Some(ei) => {
                proof {
                    pre.lemma_expo_at(ei as int);
                }
                let mut entry = self.exposure.remove(ei);
                let ghost e0 = pre.exposure@[ei as int];
                let pair = Marketplace::find_open_pair(&entry.open, id, units);
                let ghost gm: int = match pair {
                    Some(m) => m as int,
                    None => 0,
                };
                match pair {
                    Some(m) => {
                        entry.open.remove(m);
                        proof {
                            assert(entry.open@ == e0.open@.remove(m as int));
                        }
                    },
                    None => {},
                }
                self.exposure.insert(ei, entry);
                proof {
                    assert(self.exposure@ =~= pre.exposure@.update(
                        ei as int,
                        self.exposure@[ei as int],
                    ));
                    let e1 = self.exposure@[ei as int];
                    lemma_find_key_update(pre.exposure@, expo_buyer_of(), ei as int, e1);
                    assert(expo_buyer_of()(e1) == buyer);
                    self.lemma_expo_at(ei as int);
                    match pair {
                        Some(m) => {
                            assert(l[m as int] == (OpenOrder { id, units }));
                            assert(self.exposure_list(buyer) == l.remove(m as int));
                        },
                        None => {
                            assert(self.exposure_list(buyer) == l);
                            assert forall|m: int| 0 <= m < l.len()
                                implies l[m] != (OpenOrder { id, units }) by {
                                assert(!(l[m].id == id && l[m].units == units));
                            }
                        },
                    }
                    assert forall|c: AccountId| c != buyer
                        implies #[trigger] self.exposure_list(c) == pre.exposure_list(c) by {
                        assert(find_by(self.exposure@, key_pred(expo_buyer_of(), c)) == find_by(
                            pre.exposure@,
                            key_pred(expo_buyer_of(), c),
                        ));
                    }
                    assert forall|ii: int| 0 <= ii < self.exposure@.len()
                        implies exposure_entry_wf(
                        #[trigger] self.exposure@[ii],
                        self.config,
                    ) by {
                        if ii != ei as int {
                            assert(self.exposure@[ii] == pre.exposure@[ii]);
                        } else {
                            match pair {
                                Some(m) => {
                                    crate::sums::lemma_sum_by_remove(
                                        e0.open@,
                                        open_units_contrib(),
                                        m as int,
                                    );
                                    assert(open_units_contrib()(e0.open@[m as int]) >= 0);
                                    assert forall|a: int, bb: int|
                                        0 <= a < bb < e1.open@.len()
                                        implies #[trigger] open_id_of()(e1.open@[a])
                                            != #[trigger] open_id_of()(e1.open@[bb]) by {
                                        let a0 = if a < m as int { a } else { a + 1 };
                                        let b1 = if bb < m as int { bb } else { bb + 1 };
                                        assert(e1.open@[a] == e0.open@[a0]);
                                        assert(e1.open@[bb] == e0.open@[b1]);
                                    }
                                },
                                None => {
                                    assert(e1 == e0);
                                },
                            }
                        }
                    }
                    assert forall|i2: int, kk: int|
                        0 <= i2 < self.exposure@.len() && 0 <= kk
                            < self.exposure@[i2].open@.len()
                        implies (#[trigger] self.exposure@[i2].open@[kk]).id
                            < self.buy_order_count by {
                        if i2 != ei as int {
                            assert(self.exposure@[i2] == pre.exposure@[i2]);
                            assert(pre.exposure@[i2].open@[kk].id < pre.buy_order_count);
                        } else {
                            match pair {
                                Some(m) => {
                                    let k0 = if kk < m as int { kk } else { kk + 1 };
                                    assert(e1.open@[kk] == e0.open@[k0]);
                                    assert(pre.exposure@[i2].open@[k0].id
                                        < pre.buy_order_count);
                                },
                                None => {
                                    assert(e1 == e0);
                                    assert(pre.exposure@[i2].open@[kk].id
                                        < pre.buy_order_count);
                                },
                            }
                        }
                    }
                }
            },
            None => {
                proof {
                    pre.lemma_expo_absent(buyer);
                }
                let empty_entry = ExposureEntry { buyer, open: Vec::new() };
                self.exposure.push(empty_entry);
                proof {
                    assert forall|j: int| 0 <= j < pre.exposure@.len()
                        implies #[trigger] expo_buyer_of()(pre.exposure@[j]) != expo_buyer_of()(
                        self.exposure@.last(),
                    ) by {
                        assert(pre.exposure@[j].buyer != buyer);
                    }
                    lemma_find_key_push(pre.exposure@, expo_buyer_of(), self.exposure@.last());
                    self.lemma_expo_at(self.exposure@.len() - 1);
                    assert(self.exposure_list(buyer) =~= l);
                    assert forall|c: AccountId| c != buyer
                        implies #[trigger] self.exposure_list(c) == pre.exposure_list(c) by {
                        assert(find_by(self.exposure@, key_pred(expo_buyer_of(), c)) == find_by(
                            pre.exposure@,
                            key_pred(expo_buyer_of(), c),
                        ));
                    }
                    assert forall|ii: int| 0 <= ii < self.exposure@.len()
                        implies exposure_entry_wf(
                        #[trigger] self.exposure@[ii],
                        self.config,
                    ) by {
                        if ii < pre.exposure@.len() {
                            assert(self.exposure@[ii] == pre.exposure@[ii]);
                        } else {
                            assert(self.exposure@[ii] == self.exposure@.last());
                        }
                    }
                    assert forall|i2: int, kk: int|
                        0 <= i2 < self.exposure@.len() && 0 <= kk
                            < self.exposure@[i2].open@.len()
                        implies (#[trigger] self.exposure@[i2].open@[kk]).id
                            < self.buy_order_count by {
                        if i2 < pre.exposure@.len() {
                            assert(self.exposure@[i2] == pre.exposure@[i2]);
                            assert(pre.exposure@[i2].open@[kk].id < pre.buy_order_count);
                        }
                    }
                }
            },
        }
    }

    /// Index of the first open reservation equal to `(id, units)`.
    pub(crate) fn find_open_pair(v: &Vec<OpenOrder>, id: BuyOrderId, units: u128) -> (r: Option<
        usize,
    >)
        ensures
            match r {
                Some(i) => i < v@.len() && v@[i as int].id == id && v@[i as int].units == units,
                None => forall|j: int|
                    0 <= j < v@.len() ==> !((#[trigger] v@[j]).id == id && v@[j].units == units),
            },
    {
        let n = v.len();
        let mut k: usize = 0;
        while k < n
            invariant
                n == v@.len(),
                0 <= k <= n,
                forall|j: int|
                    0 <= j < k ==> !((#[trigger] v@[j]).id == id && v@[j].units == units),
            decreases n - k,
        {
            if v[k].id == id && v[k].units == units {
                return Some(k);
            }
            k += 1;
        }
        None
    }

    /// Mints `amount` of `asset` into `account`'s holding, so that test
    /// scenarios can fund sellers. Refused only on holding overflow.
    pub fn mint(&mut self, asset: AssetId, account: AccountId, amount: u128) -> (r: Result<
        (),
        CustodyError,
    >)
        requires
            old(self).wf(),
        ensures
            final(self).wf(),
            old(self).balanced() ==> final(self).balanced(),
            *final(self) == (Marketplace { ledger: final(self).ledger, ..*old(self) }),
            r is Ok <==> old(self).ledger.balance_of(asset, account) + amount <= u128::MAX,
            r is Ok ==> {
                &&& final(self).ledger.balance_of(asset, account)
                    == old(self).ledger.balance_of(asset, account) + amount
                &&& AssetLedger::other_balances_unchanged(
                    old(self).ledger,
                    final(self).ledger,
                    asset,
                    account,
                )
                &&& forall|a: AssetId|
                    #[trigger] final(self).ledger.escrowed_of(a)
                        == old(self).ledger.escrowed_of(a)
            },
            r is Err ==> *final(self) == *old(self),
    {
        let ghost pre = *self;
        let r = self.ledger.mint(asset, account, amount);
        proof {
            if r is Ok {
                assert(self.ledger.escrows@ == pre.ledger.escrows@);
                assert forall|a: AssetId| #[trigger] self.slack(a) == pre.slack(a) by {
                    assert(self.ledger.escrowed_of(a) == pre.ledger.escrowed_of(a));
                    assert(self.orders@ == pre.orders@);
                    assert(self.buy_orders@ == pre.buy_orders@);
                }
            }
        }
        r
    }
}

} // verus!
