use vstd::prelude::*;

verus! {

/// Every way a call into the marketplace can fail.
///
/// No variant is fatal to the durable state: a call that returns an error
/// leaves the registry and every balance exactly as they were.
#[derive(Clone, Copy, Debug, PartialEq, Eq, Structural)]
pub enum ContractError {
    /// The deposit is zero, or does not strictly exceed the price that
    /// currently backs the route. `sent` is the deposited amount and
    /// `required` the amount it had to exceed.
    InsufficientDeposit { sent: u128, required: u128 },
    /// The deposit is in a different denomination than the funds escrowed
    /// for the route (or, on a first purchase, than the market's currency).
    InvalidFunds,
    /// The refund or withdrawal transfer could not be delivered; the whole
    /// operation was rolled back.
    TransferFailed,
    /// `withdraw` was called by an identity other than the administrator.
    Unauthorized,
}

} // verus!
