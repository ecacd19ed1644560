//! A fixed-price escrow marketplace for a fungible credit asset.
//!
//! Sellers list inventory, which is held in escrow by the marketplace.
//! Buyers reserve units against a listing; a quorum of validator accounts
//! then attests that payment happened off-system, and on quorum the escrowed
//! units are released to the buyer while the seller accrues a receivable.
//! A bounded maintenance sweep reclaims reservations that expired before
//! reaching quorum.

pub mod admin;
pub mod attest;
pub mod buy;
pub mod fees;
pub mod laws;
pub mod ledger;
pub mod market;
pub mod queries;
pub mod sell;
pub mod sums;
pub mod types;
