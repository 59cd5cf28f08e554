//! A pay-to-overwrite route marketplace.
//!
//! A route (a human-chosen string key) maps to a content record guarded by an
//! escrowed price. Anyone may claim or reclaim a route by depositing funds
//! that strictly exceed the currently recorded price; the displaced claimant
//! is refunded exactly the price they paid; a designated administrator may
//! withdraw the funds the marketplace holds outside the escrow.
//!
//! The crate is organised in two layers. [`tracker::ContentTracker`] is the
//! registry itself: the route map, the purchase protocol and the
//! administrator identity, with the refund handed out as an instruction for
//! the host to perform. [`market::Marketplace`] closes the loop for hosts
//! that want the whole transaction in one call: it pairs the registry with a
//! [`bank::Bank`] of account balances and performs deposit, refund and
//! withdrawal as atomic steps, rolling back on a failed transfer.

pub mod bank;
pub mod coin;
pub mod errors;
pub mod market;
pub mod msg;
pub mod record;
pub mod store;
pub mod tracker;
