use vstd::prelude::*;

use crate::coin::Coin;
use crate::record::ContentRecord;
use crate::tracker::RoutePurchased;

verus! {

/// Data to initialize a marketplace. The administrator is the caller, so
/// nothing needs to be said.
pub struct InitMsg {}

/// Message for performing a state transition.
pub enum HandleMsg {
    /// The sender deposits funds to purchase a route.
    Purchase { route: String, content: String },
    /// The administrator withdraws the free balance.
    Withdraw {},
}

/// Queries defined on the registry.
pub enum QueryMsg {
    /// The content and price stored at a route.
    GetRoute { route: String },
}

/// What a successfully handled message reports back.
pub enum HandleReply {
    /// The purchase went through.
    Purchased(RoutePurchased),
    /// The free balance was paid out; carries the transferred amount.
    Withdrawn(u128),
}

/// Response to [`QueryMsg::GetRoute`].
pub struct ContentResponse {
    pub content: String,
    pub price: Coin,
}

impl From<ContentRecord> for ContentResponse {
    fn from(record: ContentRecord) -> (r: ContentResponse) {
        ContentResponse { content: record.content, price: record.price }
    }
}

impl vstd::std_specs::convert::FromSpecImpl<ContentRecord> for ContentResponse {
    open spec fn obeys_from_spec() -> bool {
        true
    }

    open spec fn from_spec(record: ContentRecord) -> ContentResponse {
        ContentResponse { content: record.content, price: record.price }
    }
}

} // verus!
