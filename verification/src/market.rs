use vstd::prelude::*;

use crate::bank::Bank;
use crate::coin::{Coin, CoinView};
use crate::errors::ContractError;
use crate::msg::{ContentResponse, HandleMsg, HandleReply, InitMsg, QueryMsg};
use crate::record::{ContentRecord, RecordView};
use crate::tracker::{
    purchase_rejection, record_after, required_price, ContentTracker, Payment, RoutePurchased,
};

verus! {

/// Everything an observer can see of a marketplace: the route map, every
/// account balance, the configuration fixed at initialization, and the funds
/// committed to records.
pub ghost struct MarketView {
    pub routes: Map<Seq<char>, RecordView>,
    pub balances: Map<Seq<char>, u128>,
    pub admin: Seq<char>,
    pub denom: Seq<char>,
    pub contract: Seq<char>,
    pub escrow: u128,
}

/// Why `purchase` is rejected before any funds move, or `None` when it is
/// acceptable: the registry's own checks and, on a first purchase, that the
/// deposit is in the market's currency.
pub open spec fn market_rejection(
    pre: MarketView,
    route: Seq<char>,
    deposit: CoinView,
) -> Option<ContractError> {
    match purchase_rejection(pre.routes, route, deposit) {
        Some(e) => Some(e),
        None => if !pre.routes.contains_key(route) && deposit.denom != pre.denom {
            Some(ContractError::InvalidFunds)
        } else {
            None
        },
    }
}

/// Whether the refund an accepted purchase owes can be delivered: there is
/// none, or it flows back to the depositor, or the displaced owner's account
/// can hold it.
pub open spec fn refund_deliverable(pre: MarketView, route: Seq<char>, depositor: Seq<char>) -> bool {
    pre.routes.contains_key(route) ==> {
        let prior = pre.routes[route];
        prior.owner == depositor || prior.price.amount + pre.balances[prior.owner] <= u128::MAX
    }
}

/// The error a `purchase` call reports, or `None` when it succeeds: first
/// the validation verdict; once validation passed, a refund that cannot be
/// delivered fails the whole call.
pub open spec fn purchase_outcome(
    pre: MarketView,
    route: Seq<char>,
    depositor: Seq<char>,
    deposit: CoinView,
) -> Option<ContractError> {
    match market_rejection(pre, route, deposit) {
        Some(e) => Some(e),
        None => if refund_deliverable(pre, route, depositor) {
            None
        } else {
            Some(ContractError::TransferFailed)
        },
    }
}

/// The administrator, currency and contract account survive every call.
pub open spec fn config_preserved(pre: MarketView, post: MarketView) -> bool {
    post.admin == pre.admin && post.denom == pre.denom && post.contract == pre.contract
}

/// A failed call leaves every record, every balance and the escrow exactly
/// as they were.
pub open spec fn market_unchanged(pre: MarketView, post: MarketView) -> bool {
    &&& post.routes == pre.routes
    &&& post.escrow == pre.escrow
    &&& forall|w: Seq<char>| #[trigger] post.balances[w] == pre.balances[w]
}

/// The observable effect of a successful purchase: the route now carries the
/// new record, whose price is the whole deposit; the deposit left the
/// depositor; the displaced owner (if any) got back exactly the old price;
/// the contract account and the escrow grew by exactly the difference.
pub open spec fn purchase_effect(
    pre: MarketView,
    post: MarketView,
    route: Seq<char>,
    content: Seq<char>,
    depositor: Seq<char>,
    deposit: CoinView,
) -> bool {
    &&& post.routes == pre.routes.insert(route, record_after(deposit, content, depositor))
    &&& post.escrow as int == pre.escrow + deposit.amount - required_price(pre.routes, route)
    &&& forall|w: Seq<char>|
        #![trigger post.balances[w]]
        post.balances[w] as int == pre.balances[w] - (if w == depositor {
            deposit.amount as int
        } else {
            0
        }) + (if w == pre.contract {
            deposit.amount as int - required_price(pre.routes, route) as int
        } else {
            0
        }) + (if pre.routes.contains_key(route) && w == pre.routes[route].owner {
            required_price(pre.routes, route) as int
        } else {
            0
        })
}

/// Refund conservation: across a successful purchase that displaces another
/// owner, the displaced owner's balance grows by exactly the price they once
/// paid, and the funds committed to the route are exactly the new price.
pub proof fn lemma_refund_conservation(
    pre: MarketView,
    post: MarketView,
    route: Seq<char>,
    content: Seq<char>,
    depositor: Seq<char>,
    deposit: CoinView,
)
    requires
        pre.routes.contains_key(route),
        pre.routes[route].owner != depositor,
        pre.routes[route].owner != pre.contract,
        purchase_effect(pre, post, route, content, depositor, deposit),
    ensures
        post.balances[pre.routes[route].owner] as int == pre.balances[pre.routes[route].owner]
            + pre.routes[route].price.amount,
        post.routes[route].price == deposit,
        post.escrow as int == pre.escrow + deposit.amount - pre.routes[route].price.amount,
{
    assert(post.balances[pre.routes[route].owner] as int == pre.balances[pre.routes[route].owner]
        + pre.routes[route].price.amount);
}

/// Whether the free balance can be paid out to the administrator.
pub open spec fn payout_deliverable(pre: MarketView) -> bool {
    pre.admin == pre.contract || pre.balances[pre.admin] + (pre.balances[pre.contract]
        - pre.escrow) <= u128::MAX
}

/// The observable effect of a successful withdrawal of `amount`: exactly the
/// free balance moved from the contract account to the administrator, and no
/// record was touched.
pub open spec fn withdraw_effect(pre: MarketView, post: MarketView, amount: int) -> bool {
    &&& post.routes == pre.routes
    &&& post.escrow == pre.escrow
    &&& amount == pre.balances[pre.contract] - pre.escrow
    &&& forall|w: Seq<char>|
        #![trigger post.balances[w]]
        post.balances[w] as int == pre.balances[w] - (if w == pre.contract {
            amount
        } else {
            0
        }) + (if w == pre.admin {
            amount
        } else {
            0
        })
}

/// A complete marketplace host in one currency: the registry together with
/// the account ledger the records' escrow lives in.
///
/// `purchase` and `withdraw` are atomic: each either performs all its fund
/// movements and state changes, or reports an error and leaves every balance
/// and every record exactly as it was.
pub struct Marketplace {
    tracker: ContentTracker,
    bank: Bank,
    denom: String,
    contract_id: String,
    escrowed: u128,
}

impl View for Marketplace {
    type V = MarketView;

    closed spec fn view(&self) -> MarketView {
        MarketView {
            routes: self.tracker@,
            balances: self.bank@,
            admin: self.tracker.admin(),
            denom: self.denom@,
            contract: self.contract_id@,
            escrow: self.escrowed,
        }
    }
}

impl Marketplace {
    pub closed spec fn wf(&self) -> bool {
        &&& self.tracker.wf()
        &&& self.bank.wf()
        &&& self.escrowed as int == self.tracker.escrow_total()
        &&& self.escrowed <= self.bank@[self.contract_id@]
        &&& forall|r: Seq<char>|
            self.tracker@.contains_key(r) ==> (#[trigger] self.tracker@[r]).price.denom
                == self.denom@
        &&& forall|r: Seq<char>|
            self.tracker@.contains_key(r) ==> (#[trigger] self.tracker@[r]).owner
                != self.contract_id@
    }

    /// The escrow never exceeds what the contract account holds: the refunds
    /// owed to the current owners are always covered.
    pub proof fn lemma_escrow_covered(&self)
        requires
            self.wf(),
        ensures
            self@.escrow <= self@.balances[self@.contract],
    {
    }

    /// Creates an empty marketplace: no routes, no balances, administered by
    /// `admin`, holding its funds in `contract_id`.
    pub fn init(admin: String, denom: String, contract_id: String, _msg: InitMsg) -> (m:
        Marketplace)
        ensures
            m.wf(),
            m@.routes == Map::<Seq<char>, RecordView>::empty(),
            forall|w: Seq<char>| #[trigger] m@.balances[w] == 0,
            m@.admin == admin@,
            m@.denom == denom@,
            m@.contract == contract_id@,
            m@.escrow == 0,
    {
        Marketplace {
            tracker: ContentTracker::new(admin),
            bank: Bank::new(),
            denom,
            contract_id,
            escrowed: 0,
        }
    }

    /// Credits externally arriving funds to `who`'s account, as the host
    /// does when a caller attaches a deposit. Reports `false`, changing
    /// nothing, when the account cannot hold that much.
    pub fn mint(&mut self, who: &String, amount: u128) -> (ok: bool)
        requires
            old(self).wf(),
        ensures
            final(self).wf(),
            config_preserved(old(self)@, final(self)@),
            final(self)@.routes == old(self)@.routes,
            final(self)@.escrow == old(self)@.escrow,
            ok == (old(self)@.balances[who@] + amount <= u128::MAX),
            ok ==> forall|w: Seq<char>| #[trigger]
                final(self)@.balances[w] == (if w == who@ {
                    (old(self)@.balances[who@] + amount) as u128
                } else {
                    old(self)@.balances[w]
                }),
            !ok ==> market_unchanged(old(self)@, final(self)@),
    {
        self.bank.credit(who, amount)
    }

    /// The balance `who` currently holds.
    pub fn balance_of(&self, who: &String) -> (r: u128)
        ensures
            r == self@.balances[who@],
    {
        self.bank.balance_of(who)
    }

    /// Pure lookup: the record for `route`, absent if never purchased.
    pub fn get(&self, route: &String) -> (r: Option<ContentRecord>)
        ensures
            match r {
                Some(rec) => self@.routes.contains_key(route@) && rec@ == self@.routes[route@],
                None => !self@.routes.contains_key(route@),
            },
    {
        self.tracker.get(route)
    }

    /// The content stored at `route`, absent if never purchased.
    pub fn get_route(&self, route: String) -> (r: Option<String>)
        ensures
            match r {
                Some(content) => self@.routes.contains_key(route@) && content@ == self@.routes[
                    route@
                ].content,
                None => !self@.routes.contains_key(route@),
            },
    {
        self.tracker.get_route(route)
    }

    /// Answers a query from the current state, without side effects.
    pub fn query(&self, msg: QueryMsg) -> (r: Option<ContentResponse>)
        ensures
            match msg {
                QueryMsg::GetRoute { route } => match r {
                    Some(resp) => self@.routes.contains_key(route@) && resp.content@
                        == self@.routes[route@].content && resp.price@ == self@.routes[
                        route@
                    ].price,
                    None => !self@.routes.contains_key(route@),
                },
            },
    {
        match msg {
            QueryMsg::GetRoute { route } => match self.tracker.get(&route) {
                Some(rec) => Some(ContentResponse::from(rec)),
                None => None,
            },
        }
    }

    /// One whole purchase: validates the deposit, refunds the displaced
    /// owner, and commits the new record — or fails without any effect.
    ///
    /// The host has already collected `deposit` from the depositor, which is
    /// what the `requires` clauses say; the deposit is moved into contract
    /// custody here, and moved back if the refund cannot be delivered.
    pub fn purchase(
        &mut self,
        route: String,
        content: String,
        depositor: String,
        deposit: Coin,
    ) -> (r: Result<RoutePurchased, ContractError>)
        requires
            old(self).wf(),
            depositor@ != old(self)@.contract,
            deposit.amount <= old(self)@.balances[depositor@],
            old(self)@.balances[old(self)@.contract] + deposit.amount <= u128::MAX,
        ensures
            final(self).wf(),
            config_preserved(old(self)@, final(self)@),
            match r {
                Ok(ev) => purchase_outcome(old(self)@, route@, depositor@, deposit@) is None
                    && purchase_effect(
                    old(self)@,
                    final(self)@,
                    route@,
                    content@,
                    depositor@,
                    deposit@,
                ) && ev.route@ == route@ && ev.from@ == depositor@,
                Err(e) => Some(e) == purchase_outcome(old(self)@, route@, depositor@, deposit@)
                    && market_unchanged(old(self)@, final(self)@),
            },
    {
        let ghost routes0 = self.tracker@;
        let ghost bank0 = self.bank@;

        // Decide the purchase against the registry.
        let refund: Option<Payment> = match self.tracker.validate_purchase(&route, &deposit) {
            Ok(rf) => rf,
            Err(e) => {
                return Err(e);
            },
        };

        // On a first purchase the deposit must be in the market's currency.
        let (has_prior, prior_owner, prior_amount): (bool, String, u128) = match refund {
            Some(p) => (true, p.to, p.amount.amount),
            None => (false, String::new(), 0),
        };
        if !has_prior && !(deposit.denom == self.denom) {
            return Err(ContractError::InvalidFunds);
        }

        proof {
            assert(market_rejection(old(self)@, route@, deposit@) is None);
            assert(prior_amount == required_price(routes0, route@));
            if has_prior {
                self.tracker.lemma_escrow_at_least(route@);
                assert(prior_amount <= self.escrowed);
            }
        }

        // Move the deposit into contract custody.
        let attach = self.bank.transfer(&depositor, &self.contract_id, deposit.amount);
        match attach {
            Ok(_) => {},
            Err(_) => {
                proof {
                    assert(false);
                }
                return Err(ContractError::TransferFailed);
            },
        }
        let ghost bank_mid = self.bank@;

        // Refund the displaced owner before anything is overwritten; if the
        // refund cannot be delivered, hand the deposit back and report the
        // failure with the registry untouched.
        if has_prior {
            let res = self.bank.transfer(&self.contract_id, &prior_owner, prior_amount);
            match res {
                Ok(_) => {},
                Err(_) => {
                    proof {
                        assert(!refund_deliverable(old(self)@, route@, depositor@));
                    }
                    let back = self.bank.transfer(&self.contract_id, &depositor, deposit.amount);
                    proof {
                        assert(back is Ok);
                        assert forall|w: Seq<char>| #[trigger] self.bank@[w] == bank0[w] by {
                            assert(bank_mid[w] as int == bank0[w] - (if w == depositor@ {
                                deposit.amount as int
                            } else {
                                0
                            }) + (if w == self.contract_id@ {
                                deposit.amount as int
                            } else {
                                0
                            }));
                            assert(self.bank@[w] as int == bank_mid[w] - (if w
                                == self.contract_id@ {
                                deposit.amount as int
                            } else {
                                0
                            }) + (if w == depositor@ {
                                deposit.amount as int
                            } else {
                                0
                            }));
                        }
                    }
                    return Err(ContractError::TransferFailed);
                },
            }
        }
        proof {
            assert(refund_deliverable(old(self)@, route@, depositor@));
        }

        // Account for the new escrow and commit the record.
        let reduced = self.escrowed - prior_amount;
        proof {
            assert(self.bank@[self.contract_id@] as int == bank0[self.contract_id@]
                + deposit.amount - prior_amount);
            assert(reduced + deposit.amount <= u128::MAX);
        }
        self.escrowed = reduced + deposit.amount;
        let ev = self.tracker.commit_purchase(route, content, depositor, deposit);

        proof {
            assert forall|rr: Seq<char>| self.tracker@.contains_key(rr) implies (
            #[trigger] self.tracker@[rr]).price.denom == self.denom@ && self.tracker@[rr].owner
                != self.contract_id@ by {
                if rr != route@ {
                    assert(routes0.contains_key(rr));
                    assert(routes0[rr] == self.tracker@[rr]);
                }
            }
        }
        Ok(ev)
    }

    /// Pays the contract's whole free balance — everything its account holds
    /// beyond the escrow — to the administrator and returns the amount. Any
    /// other caller is turned away with `Unauthorized`, and no record is
    /// ever touched.
    pub fn withdraw(&mut self, caller: String) -> (r: Result<u128, ContractError>)
        requires
            old(self).wf(),
        ensures
            final(self).wf(),
            config_preserved(old(self)@, final(self)@),
            match r {
                Ok(amount) => caller@ == old(self)@.admin && payout_deliverable(old(self)@)
                    && withdraw_effect(old(self)@, final(self)@, amount as int),
                Err(e) => market_unchanged(old(self)@, final(self)@) && (if caller@ != old(
                    self,
                )@.admin {
                    e == ContractError::Unauthorized
                } else {
                    !payout_deliverable(old(self)@) && e == ContractError::TransferFailed
                }),
            },
    {
        if !self.tracker.is_admin(&caller) {
            return Err(ContractError::Unauthorized);
        }
        let total = self.bank.balance_of(&self.contract_id);
        let free = total - self.escrowed;
        let res = self.bank.transfer(&self.contract_id, &caller, free);
        match res {
            Ok(_) => Ok(free),
            Err(_) => Err(ContractError::TransferFailed),
        }
    }

    /// Dispatches one incoming message: `sender` is the authenticated caller
    /// and `deposit` whatever funds the host collected with the call (only a
    /// purchase reads them). A successful purchase reports its event, a
    /// successful withdrawal the amount paid out.
    pub fn handle(&mut self, sender: String, deposit: Coin, msg: HandleMsg) -> (r: Result<
        HandleReply,
        ContractError,
    >)
        requires
            old(self).wf(),
            msg matches HandleMsg::Purchase { .. } ==> sender@ != old(self)@.contract
                && deposit.amount <= old(self)@.balances[sender@] && old(self)@.balances[old(
                self,
            )@.contract] + deposit.amount <= u128::MAX,
        ensures
            final(self).wf(),
            config_preserved(old(self)@, final(self)@),
            match msg {
                HandleMsg::Purchase { route, content } => match r {
                    Ok(reply) => (reply matches HandleReply::Purchased(ev) && purchase_outcome(
                        old(self)@,
                        route@,
                        sender@,
                        deposit@,
                    ) is None && purchase_effect(
                        old(self)@,
                        final(self)@,
                        route@,
                        content@,
                        sender@,
                        deposit@,
                    ) && ev.route@ == route@ && ev.from@ == sender@),
                    Err(e) => Some(e) == purchase_outcome(old(self)@, route@, sender@, deposit@)
                        && market_unchanged(old(self)@, final(self)@),
                },
                HandleMsg::Withdraw {  } => match r {
                    Ok(reply) => (reply matches HandleReply::Withdrawn(amount) && sender@ == old(
                        self,
                    )@.admin && payout_deliverable(old(self)@) && withdraw_effect(
                        old(self)@,
                        final(self)@,
                        amount as int,
                    )),
                    Err(e) => market_unchanged(old(self)@, final(self)@) && (if sender@ != old(
                        self,
                    )@.admin {
                        e == ContractError::Unauthorized
                    } else {
                        !payout_deliverable(old(self)@) && e == ContractError::TransferFailed
                    }),
                },
            },
    {
        match msg {
            HandleMsg::Purchase { route, content } => match self.purchase(
                route,
                content,
                sender,
                deposit,
            ) {
                Ok(ev) => Ok(HandleReply::Purchased(ev)),
                Err(e) => Err(e),
            },
            HandleMsg::Withdraw {  } => match self.withdraw(sender) {
                Ok(amount) => Ok(HandleReply::Withdrawn(amount)),
                Err(e) => Err(e),
            },
        }
    }
}

} // verus!
