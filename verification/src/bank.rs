use vstd::prelude::*;

use crate::errors::ContractError;
use crate::store::StrMap;

verus! {

/// Balance recorded in `m` for `who`: zero when the account has never been
/// credited.
pub open spec fn balance_in(m: Map<Seq<char>, u128>, who: Seq<char>) -> u128 {
    if m.contains_key(who) {
        m[who]
    } else {
        0
    }
}

/// The account ledger of a marketplace host: one balance per identity, in
/// the host's single currency.
///
/// Its view is total: `bank@[who]` is defined for every identity and is zero
/// until the account is credited.
pub struct Bank {
    balances: StrMap<u128>,
}

impl View for Bank {
    type V = Map<Seq<char>, u128>;

    closed spec fn view(&self) -> Map<Seq<char>, u128> {
        Map::new(|who: Seq<char>| true, |who: Seq<char>| balance_in(self.balances@, who))
    }
}

impl Bank {
    pub closed spec fn wf(&self) -> bool {
        self.balances.wf()
    }

    pub fn new() -> (b: Bank)
        ensures
            b.wf(),
            forall|w: Seq<char>| #[trigger] b@[w] == 0,
    {
        let b = Bank { balances: StrMap::new() };
        proof {
            assert forall|w: Seq<char>| #[trigger] b@[w] == 0 by {
                assert(b@[w] == balance_in(b.balances@, w));
            }
        }
        b
    }

    pub fn balance_of(&self, who: &String) -> (r: u128)
        ensures
            r == self@[who@],
    {
        proof {
            assert(self@[who@] == balance_in(self.balances@, who@));
        }
        match self.balances.find(who) {
            Some(v) => *v,
            None => 0,
        }
    }

    /// Creates `amount` fresh units in `who`'s account, as a host does when
    /// external funds arrive. Reports `false`, changing nothing, when the
    /// account cannot hold that much.
    pub fn credit(&mut self, who: &String, amount: u128) -> (ok: bool)
        requires
            old(self).wf(),
        ensures
            final(self).wf(),
            ok == (old(self)@[who@] + amount <= u128::MAX),
            ok ==> forall|w: Seq<char>| #[trigger]
                final(self)@[w] == (if w == who@ {
                    (old(self)@[who@] + amount) as u128
                } else {
                    old(self)@[w]
                }),
            !ok ==> final(self)@ == old(self)@,
    {
        let b = self.balance_of(who);
        if amount <= u128::MAX - b {
            self.balances.upsert(who.clone(), b + amount);
            proof {
                assert forall|w: Seq<char>| #[trigger]
                    self@[w] == (if w == who@ {
                        (old(self)@[who@] + amount) as u128
                    } else {
                        old(self)@[w]
                    }) by {
                    assert(self@[w] == balance_in(self.balances@, w));
                    assert(old(self)@[w] == balance_in(old(self).balances@, w));
                }
            }
            true
        } else {
            false
        }
    }

    /// Moves `amount` from `from` to `to`. Fails, and moves nothing, when
    /// `from`'s balance is too small or `to`'s account cannot hold the sum.
    pub fn transfer(&mut self, from: &String, to: &String, amount: u128) -> (r: Result<
        (),
        ContractError,
    >)
        requires
            old(self).wf(),
        ensures
            final(self).wf(),
            r is Ok <==> (amount <= old(self)@[from@] && (from@ == to@ || old(self)@[to@] + amount
                <= u128::MAX)),
            r is Err ==> r == Err::<(), ContractError>(ContractError::TransferFailed)
                && final(self)@ == old(self)@,
            r is Ok ==> forall|w: Seq<char>|
                #![trigger final(self)@[w]]
                final(self)@[w] as int == old(self)@[w] - (if w == from@ {
                    amount as int
                } else {
                    0
                }) + (if w == to@ {
                    amount as int
                } else {
                    0
                }),
    {
        let bf = self.balance_of(from);
        if amount > bf {
            return Err(ContractError::TransferFailed);
        }
        if *from == *to {
            return Ok(());
        }
        let bt = self.balance_of(to);
        if amount > u128::MAX - bt {
            return Err(ContractError::TransferFailed);
        }
        self.balances.upsert(from.clone(), bf - amount);
        self.balances.upsert(to.clone(), bt + amount);
        proof {
            assert forall|w: Seq<char>|
                #![trigger self@[w]]
                self@[w] as int == old(self)@[w] - (if w == from@ {
                    amount as int
                } else {
                    0
                }) + (if w == to@ {
                    amount as int
                } else {
                    0
                }) by {
                assert(self@[w] == balance_in(self.balances@, w));
                assert(old(self)@[w] == balance_in(old(self).balances@, w));
            }
        }
        Ok(())
    }
}

} // verus!
