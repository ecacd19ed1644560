//! The marketplace's standing guarantees, stated as lemmas over the
//! operation contracts.

use vstd::prelude::*;
use crate::market::{open_units, open_units_contrib, Marketplace};
use crate::sums::lemma_sum_by_remove;
use crate::types::{AccountId, AssetId, BuyOrderId, DexError, OpenOrder};

verus! {

impl Marketplace {
    /// The exposure bound only ever tightens outside a reservation:
    /// dropping one reservation from an open-order index, as settlement
    /// and expiry do, lowers the exposure it measures by exactly that
    /// reservation's units. Together with the reservation contract, which
    /// admits a reservation only within the tier limit, a buyer's exposure
    /// stays within the limit under which it was built up.
    pub proof fn lemma_exposure_shrinks_when_reservation_leaves(l: Seq<OpenOrder>, m: int)
        requires
            0 <= m < l.len(),
        ensures
            open_units(l.remove(m)) == open_units(l) - l[m].units,
            open_units(l.remove(m)) <= open_units(l),
    {
        lemma_sum_by_remove(l, open_units_contrib(), m);
        assert(open_units_contrib()(l[m]) == l[m].units);
    }

    /// Conservation, exact form: while the books balance, every escrowed
    /// unit of every asset is either still listed on a sell order or
    /// reserved by a pending buy order. Every call preserves `balanced`,
    /// except an expiry sweep whose credit-back finds the sell order gone.
    pub proof fn lemma_conservation_exact(self, asset: AssetId)
        requires
            self.balanced(),
        ensures
            self.ledger.escrowed_of(asset) == self.listed_units(asset) + self.pending_units(
                asset,
            ),
    {
        assert(self.slack(asset) == 0);
    }

    /// Conservation, safety form: escrow always covers the order books, so
    /// a cancellation refund or a settlement release can never find the
    /// escrow pool short. This holds in every well-formed state.
    pub proof fn lemma_escrow_covers_books(self, asset: AssetId)
        requires
            self.wf(),
        ensures
            self.ledger.escrowed_of(asset) >= self.listed_units(asset) + self.pending_units(
                asset,
            ),
    {
        assert(self.slack(asset) >= 0);
    }

    /// Settlement is final: once a buy order is gone, every further
    /// attestation on its identifier is refused — as not authorised for
    /// outsiders, as an unknown order for validators — so no order can
    /// settle twice.
    pub proof fn lemma_settlement_is_final(self, order_id: BuyOrderId)
        requires
            self.buy_order(order_id) is None,
        ensures
            forall|sender: AccountId, chain_id: u32, tx_proof: Seq<u8>|
                #[trigger] self.attest_result(sender, order_id, chain_id, tx_proof) == (
                if !self.is_validator(sender) {
                    Err::<(), DexError>(DexError::NotAuthorised)
                } else {
                    Err::<(), DexError>(DexError::InvalidOrderId)
                }),
    {
    }

    /// Settlement never fires early: an attestation that leaves the count
    /// below the quorum threshold does not settle.
    pub proof fn lemma_no_settlement_below_threshold(
        self,
        sender: AccountId,
        order_id: BuyOrderId,
        chain_id: u32,
        tx_proof: Seq<u8>,
    )
        requires
            self.buy_order(order_id) matches Some(b) && match b.payment_info {
                None => true,
                Some(pi) => pi.validators@.len() + 1 < self.min_payment_validators,
            },
        ensures
            !self.attest_settles(sender, order_id, chain_id, tx_proof),
    {
    }

    /// A duplicate attestation is refused: a validator already counted on
    /// an order's matching payment proof is turned away with a
    /// state-conflict error, and (by the attestation contract) the call
    /// leaves the state untouched — it never double-counts.
    pub proof fn lemma_duplicate_attestation_rejected(
        self,
        sender: AccountId,
        order_id: BuyOrderId,
        chain_id: u32,
        tx_proof: Seq<u8>,
    )
        requires
            self.is_validator(sender),
            self.buy_order(order_id) matches Some(b) && b.payment_info matches Some(pi) && {
                &&& pi.chain_id == chain_id
                &&& pi.tx_proof@ == tx_proof
                &&& pi.validators@.contains(sender)
            },
        ensures
            self.attest_result(sender, order_id, chain_id, tx_proof) == Err::<(), DexError>(
                DexError::DuplicateValidation,
            ),
    {
    }

    /// A conflicting attestation is refused: one naming another chain, or
    /// other proof bytes, than first recorded fails with the matching
    /// mismatch error, and (by the attestation contract) mutates nothing.
    pub proof fn lemma_conflicting_attestation_rejected(
        self,
        sender: AccountId,
        order_id: BuyOrderId,
        chain_id: u32,
        tx_proof: Seq<u8>,
    )
        requires
            self.is_validator(sender),
            self.buy_order(order_id) matches Some(b) && b.payment_info is Some,
        ensures
            ({
                let pi = self.buy_order(order_id)->Some_0.payment_info->Some_0;
                &&& pi.chain_id != chain_id ==> self.attest_result(
                    sender,
                    order_id,
                    chain_id,
                    tx_proof,
                ) == Err::<(), DexError>(DexError::ChainIdMismatch)
                &&& pi.chain_id == chain_id && pi.tx_proof@ != tx_proof ==> self.attest_result(
                    sender,
                    order_id,
                    chain_id,
                    tx_proof,
                ) == Err::<(), DexError>(DexError::TxProofMismatch)
            }),
    {
    }
}

} // verus!
