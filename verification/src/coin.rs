use vstd::prelude::*;

verus! {

/// An amount of one fungible currency, identified by its denomination.
pub struct Coin {
    pub denom: String,
    pub amount: u128,
}

/// Mathematical image of a [`Coin`].
pub ghost struct CoinView {
    pub denom: Seq<char>,
    pub amount: u128,
}

impl View for Coin {
    type V = CoinView;

    open spec fn view(&self) -> CoinView {
        CoinView { denom: self.denom@, amount: self.amount }
    }
}

impl Coin {
    pub fn new(denom: String, amount: u128) -> (c: Coin)
        ensures
            c@ == (CoinView { denom: denom@, amount }),
    {
        Coin { denom, amount }
    }
}

impl Clone for Coin {
    fn clone(&self) -> (c: Coin)
        ensures
            c@ == self@,
    {
        Coin { denom: self.denom.clone(), amount: self.amount }
    }
}

} // verus!
