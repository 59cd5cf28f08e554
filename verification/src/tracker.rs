use vstd::prelude::*;

use crate::coin::{Coin, CoinView};
use crate::errors::ContractError;
use crate::record::{ContentRecord, RecordView};
use crate::store::StrMap;

verus! {

/// Event describing a successful purchase, for the host's event sink.
pub struct RoutePurchased {
    pub route: String,
    pub from: String,
}

/// A transfer the host's fund-custody collaborator must deliver.
pub struct Payment {
    pub to: String,
    pub amount: Coin,
}

/// The price a new deposit has to exceed strictly: the escrowed price when
/// the route is claimed, zero when it never was.
pub open spec fn required_price(routes: Map<Seq<char>, RecordView>, route: Seq<char>) -> u128 {
    if routes.contains_key(route) {
        routes[route].price.amount
    } else {
        0
    }
}

/// Why a purchase of `route` with `deposit` is rejected against the map
/// `routes`, or `None` when it is acceptable. The checks run in this order,
/// stopping at the first failure: a zero deposit; then, against a claimed
/// route, the denomination; then the strict price comparison.
pub open spec fn purchase_rejection(
    routes: Map<Seq<char>, RecordView>,
    route: Seq<char>,
    deposit: CoinView,
) -> Option<ContractError> {
    if deposit.amount == 0 {
        Some(ContractError::InsufficientDeposit { sent: 0, required: 0 })
    } else if routes.contains_key(route) && deposit.denom != routes[route].price.denom {
        Some(ContractError::InvalidFunds)
    } else if deposit.amount <= required_price(routes, route) {
        Some(
            ContractError::InsufficientDeposit {
                sent: deposit.amount,
                required: required_price(routes, route),
            },
        )
    } else {
        None
    }
}

pub open spec fn purchase_allowed(
    routes: Map<Seq<char>, RecordView>,
    route: Seq<char>,
    deposit: CoinView,
) -> bool {
    purchase_rejection(routes, route, deposit) is None
}

/// The record a successful purchase stores: the deposit becomes the escrowed
/// price and the depositor the owner.
pub open spec fn record_after(
    deposit: CoinView,
    content: Seq<char>,
    owner: Seq<char>,
) -> RecordView {
    RecordView { price: deposit, content, owner }
}

/// The registry: the durable map from route to record, and the administrator
/// identity fixed at initialization. Its view is that map.
///
/// The registry itself never moves funds. A purchase is played in two steps:
/// [`ContentTracker::validate_purchase`] decides it and names the refund the
/// host must deliver first, and [`ContentTracker::commit_purchase`] then
/// stores the record. A host that could not deliver the refund simply never
/// commits, so a failed transfer leaves the registry untouched.
pub struct ContentTracker {
    values: StrMap<ContentRecord>,
    contract_owner: String,
}

impl View for ContentTracker {
    type V = Map<Seq<char>, RecordView>;

    closed spec fn view(&self) -> Map<Seq<char>, RecordView> {
        self.values@
    }
}

impl ContentTracker {
    pub closed spec fn wf(&self) -> bool {
        self.values.wf()
    }

    /// The administrator identity.
    pub closed spec fn admin(&self) -> Seq<char> {
        self.contract_owner@
    }

    /// Total funds escrowed across all records.
    pub closed spec fn escrow_total(&self) -> int {
        self.values.sum(|r: RecordView| r.price.amount as int)
    }

    /// A single record never escrows more than the total.
    pub proof fn lemma_escrow_at_least(&self, route: Seq<char>)
        requires
            self@.contains_key(route),
        ensures
            self.escrow_total() >= self@[route].price.amount,
            self.escrow_total() >= 0,
    {
        let f = |r: RecordView| r.price.amount as int;
        self.values.lemma_sum_at_least(route, f);
    }

    /// Creates an empty registry administered by `contract_owner`.
    pub fn new(contract_owner: String) -> (t: ContentTracker)
        ensures
            t.wf(),
            t@ == Map::<Seq<char>, RecordView>::empty(),
            t.admin() == contract_owner@,
            t.escrow_total() == 0,
    {
        ContentTracker { values: StrMap::new(), contract_owner }
    }

    /// Whether `caller` is the administrator.
    pub fn is_admin(&self, caller: &String) -> (r: bool)
        ensures
            r == (caller@ == self.admin()),
    {
        *caller == self.contract_owner
    }

    /// Pure lookup: the record for `route`, absent if never purchased.
    pub fn get(&self, route: &String) -> (r: Option<ContentRecord>)
        ensures
            match r {
                Some(rec) => self@.contains_key(route@) && rec@ == self@[route@],
                None => !self@.contains_key(route@),
            },
    {
        match self.values.find(route) {
            Some(rec) => Some(rec.clone()),
            None => None,
        }
    }

    /// The content stored at `route`, absent if never purchased.
    pub fn get_route(&self, route: String) -> (r: Option<String>)
        ensures
            match r {
                Some(content) => self@.contains_key(route@) && content@ == self@[route@].content,
                None => !self@.contains_key(route@),
            },
    {
        match self.values.find(&route) {
            Some(rec) => Some(rec.content.clone()),
            None => None,
        }
    }

    /// Decides a proposed purchase without touching any state. On acceptance
    /// it returns the refund owed to the displaced owner — exactly the
    /// escrowed price, to exactly the current owner — which the host must
    /// deliver before it calls [`ContentTracker::commit_purchase`].
    pub fn validate_purchase(&self, route: &String, deposit: &Coin) -> (r: Result<
        Option<Payment>,
        ContractError,
    >)
        ensures
            r is Ok <==> purchase_allowed(self@, route@, deposit@),
            match r {
                Ok(refund) => match refund {
                    Some(p) => self@.contains_key(route@) && p.to@ == self@[route@].owner
                        && p.amount@ == self@[route@].price,
                    None => !self@.contains_key(route@),
                },
                Err(e) => Some(e) == purchase_rejection(self@, route@, deposit@),
            },
    {
        if deposit.amount == 0 {
            return Err(ContractError::InsufficientDeposit { sent: 0, required: 0 });
        }
        match self.values.find(route) {
            Some(existing) => {
                if !(existing.price.denom == deposit.denom) {
                    Err(ContractError::InvalidFunds)
                } else if deposit.amount <= existing.price.amount {
                    Err(
                        ContractError::InsufficientDeposit {
                            sent: deposit.amount,
                            required: existing.price.amount,
                        },
                    )
                } else {
                    Ok(
                        Some(
                            Payment {
                                to: existing.owner.clone(),
                                amount: existing.price.clone(),
                            },
                        ),
                    )
                }
            },
            None => Ok(None),
        }
    }

    /// Stores the record of an accepted purchase, replacing whatever record
    /// the route carried. Only called once the validation has passed and the
    /// refund it named, if any, has been delivered.
    pub fn commit_purchase(
        &mut self,
        route: String,
        content: String,
        depositor: String,
        deposit: Coin,
    ) -> (ev: RoutePurchased)
        requires
            old(self).wf(),
            purchase_allowed(old(self)@, route@, deposit@),
        ensures
            final(self).wf(),
            final(self)@ == old(self)@.insert(route@, record_after(deposit@, content@, depositor@)),
            final(self).admin() == old(self).admin(),
            final(self).escrow_total() == old(self).escrow_total() + deposit.amount
                - required_price(old(self)@, route@),
            ev.route@ == route@,
            ev.from@ == depositor@,
    {
        let ev = RoutePurchased { route: route.clone(), from: depositor.clone() };
        let rec = ContentRecord { price: deposit, content, owner: depositor };
        self.values.upsert(route, rec);
        ev
    }
}

/// Strict monotonic price: when a purchase of a route is acceptable after an
/// earlier successful purchase of the same route, the new deposit strictly
/// exceeds the earlier one, which in turn strictly exceeded whatever price
/// the route carried before. Prices along any chain of successful purchases
/// therefore strictly increase.
pub proof fn lemma_strict_monotonic_price(
    routes: Map<Seq<char>, RecordView>,
    route: Seq<char>,
    d1: CoinView,
    c1: Seq<char>,
    o1: Seq<char>,
    d2: CoinView,
)
    requires
        purchase_allowed(routes, route, d1),
        purchase_allowed(routes.insert(route, record_after(d1, c1, o1)), route, d2),
    ensures
        d2.amount > d1.amount,
        routes.contains_key(route) ==> d1.amount > routes[route].price.amount,
{
}

/// One purchase of a chain, as a spec value: the deposit and what it stores.
pub ghost struct PurchaseStep {
    pub deposit: CoinView,
    pub content: Seq<char>,
    pub owner: Seq<char>,
}

/// The route map after a chain of purchases of one route, each storing its
/// record on top of the previous state — the shape `commit_purchase` gives
/// every successful purchase.
pub open spec fn routes_after_chain(
    m: Map<Seq<char>, RecordView>,
    route: Seq<char>,
    steps: Seq<PurchaseStep>,
) -> Map<Seq<char>, RecordView>
    decreases steps.len(),
{
    if steps.len() == 0 {
        m
    } else {
        routes_after_chain(
            m.insert(route, record_after(steps[0].deposit, steps[0].content, steps[0].owner)),
            route,
            steps.drop_first(),
        )
    }
}

/// Every purchase of the chain passes validation in the state the previous
/// ones produced.
pub open spec fn chain_allowed(
    m: Map<Seq<char>, RecordView>,
    route: Seq<char>,
    steps: Seq<PurchaseStep>,
) -> bool
    decreases steps.len(),
{
    steps.len() == 0 || (purchase_allowed(m, route, steps[0].deposit) && chain_allowed(
        m.insert(route, record_after(steps[0].deposit, steps[0].content, steps[0].owner)),
        route,
        steps.drop_first(),
    ))
}

proof fn lemma_chain_adjacent(
    m: Map<Seq<char>, RecordView>,
    route: Seq<char>,
    steps: Seq<PurchaseStep>,
    i: int,
)
    requires
        chain_allowed(m, route, steps),
        0 <= i,
        i + 1 < steps.len(),
    ensures
        steps[i].deposit.amount < steps[i + 1].deposit.amount,
    decreases i,
{
    let m1 = m.insert(route, record_after(steps[0].deposit, steps[0].content, steps[0].owner));
    if i == 0 {
        assert(steps.drop_first()[0] == steps[1]);
        assert(chain_allowed(m1, route, steps.drop_first()));
        assert(purchase_allowed(m1, route, steps.drop_first()[0].deposit));
        assert(m1[route].price.amount == steps[0].deposit.amount);
    } else {
        lemma_chain_adjacent(m1, route, steps.drop_first(), i - 1);
        assert(steps.drop_first()[i - 1] == steps[i]);
        assert(steps.drop_first()[i] == steps[i + 1]);
    }
}

/// Strict monotonic price: in any chain of successful purchases of one
/// route, every later deposit — each the route's recorded price from its
/// purchase on — strictly exceeds every earlier one.
pub proof fn lemma_chain_strictly_monotonic(
    m: Map<Seq<char>, RecordView>,
    route: Seq<char>,
    steps: Seq<PurchaseStep>,
    i: int,
    j: int,
)
    requires
        chain_allowed(m, route, steps),
        0 <= i < j < steps.len(),
    ensures
        steps[i].deposit.amount < steps[j].deposit.amount,
    decreases j - i,
{
    if j == i + 1 {
        lemma_chain_adjacent(m, route, steps, i);
    } else {
        lemma_chain_strictly_monotonic(m, route, steps, i, j - 1);
        lemma_chain_adjacent(m, route, steps, j - 1);
    }
}

/// After a non-empty chain, the route carries the record of the last
/// purchase: its deposit is the recorded price.
pub proof fn lemma_chain_final_record(
    m: Map<Seq<char>, RecordView>,
    route: Seq<char>,
    steps: Seq<PurchaseStep>,
)
    requires
        steps.len() > 0,
    ensures
        routes_after_chain(m, route, steps).contains_key(route),
        routes_after_chain(m, route, steps)[route] == record_after(
            steps.last().deposit,
            steps.last().content,
            steps.last().owner,
        ),
    decreases steps.len(),
{
    let m1 = m.insert(route, record_after(steps[0].deposit, steps[0].content, steps[0].owner));
    if steps.len() == 1 {
        assert(routes_after_chain(m1, route, steps.drop_first()) == m1);
    } else {
        lemma_chain_final_record(m1, route, steps.drop_first());
        assert(steps.drop_first().last() == steps.last());
    }
}

/// First purchase: a route that was never purchased accepts any strictly
/// positive deposit, whatever its denomination.
pub proof fn lemma_first_purchase(
    routes: Map<Seq<char>, RecordView>,
    route: Seq<char>,
    deposit: CoinView,
)
    requires
        !routes.contains_key(route),
        deposit.amount > 0,
    ensures
        purchase_allowed(routes, route, deposit),
{
}

} // verus!
