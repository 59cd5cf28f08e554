use vstd::prelude::*;

use crate::coin::{Coin, CoinView};

verus! {

/// The stored claim on one route: the escrowed price that backs it, the
/// content payload, and the identity entitled to the refund when the route
/// is reclaimed.
pub struct ContentRecord {
    pub price: Coin,
    pub content: String,
    pub owner: String,
}

/// Mathematical image of a [`ContentRecord`].
pub ghost struct RecordView {
    pub price: CoinView,
    pub content: Seq<char>,
    pub owner: Seq<char>,
}

impl View for ContentRecord {
    type V = RecordView;

    open spec fn view(&self) -> RecordView {
        RecordView { price: self.price@, content: self.content@, owner: self.owner@ }
    }
}

impl Clone for ContentRecord {
    fn clone(&self) -> (r: ContentRecord)
        ensures
            r@ == self@,
    {
        ContentRecord {
            price: self.price.clone(),
            content: self.content.clone(),
            owner: self.owner.clone(),
        }
    }
}

} // verus!
