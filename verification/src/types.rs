//! Identifiers, configuration, records, errors and notifications of the
//! marketplace.

use vstd::prelude::*;

verus! {

/// An account identity.
pub type AccountId = u64;

/// Identifier of a fungible credit asset.
pub type AssetId = u32;

/// Identifier of a sell order; allocated from a monotonic counter.
pub type OrderId = u128;

/// Identifier of a buy order; allocated from a monotonic counter.
pub type BuyOrderId = u128;

/// Project an asset belongs to, as the asset registry reports it.
pub type ProjectId = u32;

/// Group within a project, as the asset registry reports it.
pub type GroupId = u32;

/// A discrete, monotonically increasing time tick.
pub type Tick = u64;

/// Static limits and minimums of a marketplace instance.
#[derive(Clone, Copy, PartialEq, Eq, Structural, Debug)]
pub struct MarketConfig {
    /// Minimum units for which a sell order may be created.
    pub min_units_to_create_sell_order: u128,
    /// Minimum price per unit for a sell order.
    pub min_price_per_unit: u128,
    /// Largest settable payment-fee rate, in whole percent.
    pub max_payment_fee: u8,
    /// Largest settable flat purchase fee.
    pub max_purchase_fee: u128,
    /// Capacity of the validator set, and of one order's attestation set.
    pub max_validators: usize,
    /// Longest accepted payment-proof byte string.
    pub max_tx_proof_len: usize,
    /// Capacity of one buyer's open-order index.
    pub max_open_orders_per_user: usize,
    /// Ticks from reservation to expiry of a buy order.
    pub buy_order_expiry_time: Tick,
}

impl MarketConfig {
    /// A payment-fee rate is a percentage, so its cap stays within one hundred.
    pub open spec fn wf(self) -> bool {
        self.max_payment_fee <= 100
    }
}

/// A fixed-price listing whose remaining units sit in escrow. A listing
/// whose remaining units reach zero is logically closed: it stays on the
/// book only while pending reservations still reference it — settlement
/// reads it for the seller's identity, and the expiry sweep credits units
/// back onto it — and leaves the book when the last of them settles.
/// Cancellation removes it outright.
#[derive(Clone, Copy, PartialEq, Eq, Structural, Debug)]
pub struct SellOrder {
    /// This order's identifier.
    pub id: OrderId,
    /// The seller that created the listing.
    pub owner: AccountId,
    /// Units still listed; reserved units have already been moved off.
    pub units: u128,
    /// Price asked for each unit.
    pub price_per_unit: u128,
    /// The listed asset.
    pub asset_id: AssetId,
}

/// The payment proof recorded for a buy order, with the validators that
/// attested to it so far.
#[derive(Clone, Debug)]
pub struct PaymentInfo {
    /// Chain the payment was observed on; zero names the off-chain channel.
    pub chain_id: u32,
    /// Opaque proof bytes; compared for equality only.
    pub tx_proof: Vec<u8>,
    /// Distinct validator accounts that attested to this proof.
    pub validators: Vec<AccountId>,
}

/// A reservation of units against a sell order, awaiting payment quorum.
#[derive(Clone, Debug)]
pub struct BuyOrder {
    /// This reservation's identifier.
    pub id: BuyOrderId,
    /// The sell order the units were reserved from.
    pub order_id: OrderId,
    /// The reserving buyer.
    pub buyer: AccountId,
    /// Units reserved; always positive.
    pub units: u128,
    /// Price per unit copied from the sell order at reservation time.
    pub price_per_unit: u128,
    /// Asset of the referenced sell order.
    pub asset_id: AssetId,
    /// Payment fee plus purchase fee.
    pub total_fee: u128,
    /// Fees plus the price of the reserved units.
    pub total_amount: u128,
    /// First tick at which the reservation no longer settles.
    pub expiry_time: Tick,
    /// Attestation record; absent until the first validator attests.
    pub payment_info: Option<PaymentInfo>,
}

/// Tier a buyer is assigned to for exposure limiting.
#[derive(Clone, Copy, PartialEq, Eq, Structural, Debug)]
pub enum UserLevel {
    /// The single tier every approved buyer currently occupies.
    KycLevel1,
}

/// A seller's standing instruction for how payouts should reach them.
#[derive(Clone, Debug)]
pub struct PayoutPreference {
    /// Payment rail the seller prefers.
    pub channel_id: u32,
    /// Opaque destination on that rail.
    pub address: Vec<u8>,
}

/// One payout the authority executed off-system and reports back.
#[derive(Clone, Debug)]
pub struct Payout {
    /// Amount deducted from the seller's receivable.
    pub amount: u128,
    /// Opaque reference to the off-system payment.
    pub reference: Vec<u8>,
}

/// One reservation in a buyer's open-order index.
#[derive(Clone, Copy, PartialEq, Eq, Structural, Debug)]
pub struct OpenOrder {
    /// The buy order's identifier.
    pub id: BuyOrderId,
    /// Units it reserved.
    pub units: u128,
}

/// A buyer's open-order index: reservations not yet settled or expired.
#[derive(Clone, Debug)]
pub struct ExposureEntry {
    /// The buyer the index belongs to.
    pub buyer: AccountId,
    /// The open reservations, in creation order.
    pub open: Vec<OpenOrder>,
}

/// A seller's accrued, not-yet-paid-out balance.
#[derive(Clone, Copy, PartialEq, Eq, Structural, Debug)]
pub struct Receivable {
    /// The seller owed.
    pub seller: AccountId,
    /// Amount owed.
    pub amount: u128,
}

/// A seller's stored payout preference.
#[derive(Clone, Debug)]
pub struct PreferenceEntry {
    /// The seller that set it.
    pub seller: AccountId,
    /// The stored preference.
    pub preference: PayoutPreference,
}

/// What the asset registry knows of one listable asset.
#[derive(Clone, Copy, PartialEq, Eq, Structural, Debug)]
pub struct AssetProject {
    /// The asset.
    pub asset_id: AssetId,
    /// Project the asset belongs to.
    pub project_id: ProjectId,
    /// Group within that project.
    pub group_id: GroupId,
}

/// Everything a marketplace call can fail with.
#[derive(Clone, Copy, PartialEq, Eq, Structural, Debug)]
pub enum DexError {
    /// An order-id counter or the expiry tick would overflow.
    OrderIdOverflow,
    /// The named order does not exist.
    InvalidOrderId,
    /// Only the order owner may perform this call.
    InvalidOrderOwner,
    /// The expected asset does not match the order.
    InvalidAssetId,
    /// Order units cannot be combined without overflow.
    OrderUnitsOverflow,
    /// The seller's holdings do not cover the listing.
    InsufficientBalance,
    /// Price per unit is below the configured minimum.
    BelowMinimumPrice,
    /// Units are below the configured minimum.
    BelowMinimumUnits,
    /// Fee arithmetic overflowed.
    ArithmeticError,
    /// The asset registry does not permit this asset.
    AssetNotPermitted,
    /// A buyer cannot fill their own listing.
    SellerAndBuyerCannotBeSame,
    /// Payment-fee rate above the configured cap.
    CannotSetMoreThanMaxPaymentFee,
    /// Total fee above the buyer's stated cap.
    FeeExceedsUserLimit,
    /// Purchase fee above the configured cap.
    CannotSetMoreThanMaxPurchaseFee,
    /// Caller is not authorised for this call.
    NotAuthorised,
    /// The validator account is already registered.
    ValidatorAccountAlreadyExists,
    /// Validator set, or an order's attestation set, is at capacity.
    TooManyValidatorAccounts,
    /// Attestation names a different chain than already recorded.
    ChainIdMismatch,
    /// Attestation carries a different proof than already recorded.
    TxProofMismatch,
    /// Caller is not on the identity allow-list.
    KYCAuthorisationFailed,
    /// This validator already attested to this order.
    DuplicateValidation,
    /// Caller is not the configured payout authority.
    NotSellerPayoutAuthority,
    /// No payout authority has been configured.
    SellerPayoutAuthorityNotSet,
    /// The seller has no receivable record.
    NoReceivables,
    /// The receivable does not cover the reported payout.
    ReceivableLessThanPayment,
    /// The buyer's open-order index is at capacity.
    OpenOrderLimitExceeded,
    /// The reservation would exceed the buyer's tier limit.
    UserOpenOrderUnitsAllowedExceeded,
    /// No tier limit has been configured.
    UserOpenOrderUnitsLimtNotFound,
    /// The quorum threshold cannot be zero.
    MinValidatorsCannotBeZero,
}

/// A notification deposited by a successful call.
#[derive(Clone, Debug)]
pub enum Event {
    /// A new sell order was listed.
    SellOrderCreated {
        order_id: OrderId,
        asset_id: AssetId,
        project_id: ProjectId,
        group_id: GroupId,
        units: u128,
        price_per_unit: u128,
        owner: AccountId,
    },
    /// A sell order was cancelled and its units returned.
    SellOrderCancelled { order_id: OrderId, seller: AccountId },
    /// A reservation was created against a sell order.
    BuyOrderCreated {
        order_id: BuyOrderId,
        sell_order_id: OrderId,
        units: u128,
        project_id: ProjectId,
        group_id: GroupId,
        price_per_unit: u128,
        fees_paid: u128,
        total_amount: u128,
        seller: AccountId,
        buyer: AccountId,
    },
    /// A validator account was added to the set.
    ValidatorAccountAdded { account_id: AccountId },
    /// A validator account was removed from the set.
    ValidatorAccountRemoved { account_id: AccountId },
    /// A validator attested to a buy order's payment.
    BuyOrderPaymentValidated { order_id: BuyOrderId, chain_id: u32, validator: AccountId },
    /// Quorum was reached and the reservation settled.
    BuyOrderFilled {
        order_id: BuyOrderId,
        sell_order_id: OrderId,
        units: u128,
        project_id: ProjectId,
        group_id: GroupId,
        price_per_unit: u128,
        fees_paid: u128,
        seller: AccountId,
        buyer: AccountId,
    },
    /// A seller set or cleared their payout preference.
    SellerPayoutPreferenceSet { seller: AccountId, preference: Option<PayoutPreference> },
    /// The payout authority was configured.
    SellerPayoutAuthoritySet { authority: AccountId },
    /// The authority reported a payout executed to a seller.
    SellerPayoutExecuted { seller: AccountId, payout: Payout },
    /// An expired reservation was reclaimed by the sweep.
    BuyOrderExpired {
        order_id: BuyOrderId,
        sell_order_id: OrderId,
        units: u128,
        buyer: AccountId,
    },
    /// The tier limit for open-order units was updated.
    UserOpenOrderUnitsLimitUpdated { level: UserLevel, limit: u128 },
    /// A buyer's open-order index was cleared by the authority.
    BuyOrdersByUserCleared { user: AccountId },
}

} // verus!
