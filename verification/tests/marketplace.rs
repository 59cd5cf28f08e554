use plutocratic_hosting::coin::Coin;
use plutocratic_hosting::errors::ContractError;
use plutocratic_hosting::market::Marketplace;
use plutocratic_hosting::msg::{ContentResponse, HandleMsg, HandleReply, InitMsg, QueryMsg};

fn coins(amount: u128, denom: &str) -> Coin {
    Coin::new(denom.to_string(), amount)
}

fn market(admin: &str, denom: &str) -> Marketplace {
    Marketplace::init(
        admin.to_string(),
        denom.to_string(),
        "contract".to_string(),
        InitMsg {},
    )
}

#[test]
fn proper_initialization() {
    let mut deps = market("creator", "earth");
    assert!(deps.mint(&"creator".to_string(), 1000));

    let value = deps.query(QueryMsg::GetRoute { route: "doesn't exist".to_string() });
    assert!(value.is_none());
}

#[test]
fn contract_purchase_and_replace() {
    let mut deps = market("creator", "token");
    assert!(deps.mint(&"contract".to_string(), 2));
    assert!(deps.mint(&"addr1".to_string(), 2));
    assert!(deps.mint(&"addr2".to_string(), 8));

    // Simple route purchase works
    let res = deps.purchase(
        "troute".to_string(),
        "tcontent".to_string(),
        "addr1".to_string(),
        coins(2, "token"),
    );
    assert!(res.is_ok());

    let value = deps.query(QueryMsg::GetRoute { route: "troute".to_string() }).unwrap();
    assert_eq!(value.content, "tcontent");
    assert_eq!(value.price.denom, "token");
    assert_eq!(value.price.amount, 2);

    // Try replace with wrong token
    let res = deps.purchase(
        "troute".to_string(),
        "null".to_string(),
        "addr2".to_string(),
        coins(4, "other"),
    );
    assert!(matches!(res, Err(ContractError::InvalidFunds)));

    // Try to replace content with more "token"
    let res = deps.purchase(
        "troute".to_string(),
        "c2".to_string(),
        "addr2".to_string(),
        coins(4, "token"),
    );
    assert!(res.is_ok());

    let value = deps.query(QueryMsg::GetRoute { route: "troute".to_string() }).unwrap();
    assert_eq!(value.content, "c2");
    assert_eq!(value.price.denom, "token");
    assert_eq!(value.price.amount, 4);
}

#[test]
fn lib_purchase_and_replace() {
    let mut contract = market("bob", "near");
    assert!(contract.mint(&"bob".to_string(), 2));
    assert!(contract.mint(&"alice".to_string(), 3));

    contract
        .purchase("troute".to_string(), "tcontent".to_string(), "bob".to_string(), coins(2, "near"))
        .unwrap();
    assert_eq!(
        contract.get_route("troute".to_string()),
        Some("tcontent".to_string())
    );

    contract
        .purchase(
            "troute".to_string(),
            "new content".to_string(),
            "alice".to_string(),
            coins(3, "near"),
        )
        .unwrap();
    assert_eq!(
        contract.get_route("troute".to_string()),
        Some("new content".to_string())
    );

    // Contract owner
    contract.withdraw("bob".to_string()).unwrap();
}

#[test]
fn tracker_purchase_and_replace() {
    let mut contract = market("alice", "unit");
    assert!(contract.get_route("troute".to_string()).is_none());

    // Sending with 0 value should fail
    assert!(matches!(
        contract.purchase(
            "troute".to_string(),
            "tcontent".to_string(),
            "bob".to_string(),
            coins(0, "unit")
        ),
        Err(ContractError::InsufficientDeposit { sent: 0, required: 0 })
    ));

    // Sending with a value should succeed.
    assert!(contract.mint(&"bob".to_string(), 2));
    contract
        .purchase("troute".to_string(), "tcontent".to_string(), "bob".to_string(), coins(2, "unit"))
        .unwrap();
    assert_eq!(
        contract.get_route("troute".to_string()),
        Some("tcontent".to_string())
    );

    // Sending with same value as purchased should error.
    assert!(contract.mint(&"charlie".to_string(), 6));
    assert!(matches!(
        contract.purchase(
            "troute".to_string(),
            "new content".to_string(),
            "charlie".to_string(),
            coins(2, "unit")
        ),
        Err(ContractError::InsufficientDeposit { sent: 2, required: 2 })
    ));
    assert_eq!(
        contract.get_route("troute".to_string()),
        Some("tcontent".to_string())
    );

    let bob_balance = contract.balance_of(&"bob".to_string());

    // Should be able to repurchase the route from bob with more value.
    contract
        .purchase(
            "troute".to_string(),
            "new content".to_string(),
            "charlie".to_string(),
            coins(4, "unit"),
        )
        .unwrap();
    assert_eq!(
        contract.get_route("troute".to_string()),
        Some("new content".to_string())
    );
    // Check to make sure bob's balance was refunded what they purchased
    assert_eq!(contract.balance_of(&"bob".to_string()), bob_balance + 2);
}

#[test]
fn first_purchase_any_positive_deposit() {
    let mut m = market("admin", "gold");
    assert!(m.get(&"fresh".to_string()).is_none());
    assert!(m.mint(&"ann".to_string(), 1));
    let res = m.purchase("fresh".to_string(), "c".to_string(), "ann".to_string(), coins(1, "gold"));
    assert!(res.is_ok());
    let rec = m.get(&"fresh".to_string()).unwrap();
    assert_eq!(rec.price.amount, 1);
    assert_eq!(rec.owner, "ann");
    assert_eq!(rec.content, "c");
}

#[test]
fn first_purchase_wrong_currency_rejected() {
    let mut m = market("admin", "gold");
    assert!(m.mint(&"ann".to_string(), 5));
    let res = m.purchase("fresh".to_string(), "c".to_string(), "ann".to_string(), coins(5, "tin"));
    assert!(matches!(res, Err(ContractError::InvalidFunds)));
    assert!(m.get(&"fresh".to_string()).is_none());
    assert_eq!(m.balance_of(&"ann".to_string()), 5);
}

#[test]
fn strict_monotonic_prices() {
    let mut m = market("admin", "gold");
    assert!(m.mint(&"a".to_string(), 1));
    assert!(m.mint(&"b".to_string(), 2));
    assert!(m.mint(&"c".to_string(), 3));
    assert!(m.purchase("r".to_string(), "1".to_string(), "a".to_string(), coins(1, "gold")).is_ok());
    assert!(m.purchase("r".to_string(), "2".to_string(), "b".to_string(), coins(2, "gold")).is_ok());
    assert!(m.purchase("r".to_string(), "3".to_string(), "c".to_string(), coins(3, "gold")).is_ok());
    // The price never moved backwards, and equal bids never went through.
    assert_eq!(m.get(&"r".to_string()).unwrap().price.amount, 3);
    assert!(m.mint(&"d".to_string(), 3));
    assert!(matches!(
        m.purchase("r".to_string(), "4".to_string(), "d".to_string(), coins(3, "gold")),
        Err(ContractError::InsufficientDeposit { sent: 3, required: 3 })
    ));
}

#[test]
fn self_repurchase_refunds_self() {
    let mut m = market("admin", "gold");
    assert!(m.mint(&"bob".to_string(), 6));
    m.purchase("r".to_string(), "one".to_string(), "bob".to_string(), coins(2, "gold")).unwrap();
    assert_eq!(m.balance_of(&"bob".to_string()), 4);
    // Bob raises his own price: pays 4, gets his original 2 back.
    m.purchase("r".to_string(), "two".to_string(), "bob".to_string(), coins(4, "gold")).unwrap();
    assert_eq!(m.balance_of(&"bob".to_string()), 2);
    assert_eq!(m.balance_of(&"contract".to_string()), 4);
    let rec = m.get(&"r".to_string()).unwrap();
    assert_eq!(rec.price.amount, 4);
    assert_eq!(rec.content, "two");
}

#[test]
fn failed_refund_rolls_everything_back() {
    let mut m = market("admin", "gold");
    assert!(m.mint(&"rich".to_string(), u128::MAX));
    m.purchase("r".to_string(), "keep".to_string(), "rich".to_string(), coins(5, "gold")).unwrap();
    // Now the displaced owner's account could not hold the refund.
    assert!(m.mint(&"rich".to_string(), 3));
    assert!(m.mint(&"buyer".to_string(), 10));
    let res =
        m.purchase("r".to_string(), "steal".to_string(), "buyer".to_string(), coins(10, "gold"));
    assert!(matches!(res, Err(ContractError::TransferFailed)));
    // The record is unchanged and no funds moved.
    let rec = m.get(&"r".to_string()).unwrap();
    assert_eq!(rec.content, "keep");
    assert_eq!(rec.owner, "rich");
    assert_eq!(rec.price.amount, 5);
    assert_eq!(m.balance_of(&"buyer".to_string()), 10);
    assert_eq!(m.balance_of(&"rich".to_string()), u128::MAX - 2);
    assert_eq!(m.balance_of(&"contract".to_string()), 5);
}

#[test]
fn withdraw_pays_out_free_balance() {
    let mut m = market("admin", "gold");
    // Funds the marketplace accumulated outside any escrow.
    assert!(m.mint(&"contract".to_string(), 7));
    assert!(m.mint(&"alice".to_string(), 5));
    m.purchase("r".to_string(), "c".to_string(), "alice".to_string(), coins(5, "gold")).unwrap();
    // 12 units in custody, 5 of them escrowed for the route.
    assert_eq!(m.balance_of(&"contract".to_string()), 12);
    let paid = m.withdraw("admin".to_string()).unwrap();
    assert_eq!(paid, 7);
    assert_eq!(m.balance_of(&"admin".to_string()), 7);
    assert_eq!(m.balance_of(&"contract".to_string()), 5);
    // The escrow stays behind, so a second withdrawal finds nothing free.
    assert_eq!(m.withdraw("admin".to_string()).unwrap(), 0);
}

#[test]
fn withdraw_by_non_admin_is_unauthorized() {
    let mut m = market("admin", "gold");
    assert!(m.mint(&"contract".to_string(), 9));
    let res = m.withdraw("mallory".to_string());
    assert!(matches!(res, Err(ContractError::Unauthorized)));
    assert_eq!(m.balance_of(&"contract".to_string()), 9);
    assert_eq!(m.balance_of(&"mallory".to_string()), 0);
}

#[test]
fn handle_dispatches_messages() {
    let mut m = market("admin", "gold");
    assert!(m.mint(&"ann".to_string(), 4));
    let reply = m
        .handle(
            "ann".to_string(),
            coins(4, "gold"),
            HandleMsg::Purchase { route: "r".to_string(), content: "c".to_string() },
        )
        .unwrap();
    match reply {
        HandleReply::Purchased(ev) => {
            assert_eq!(ev.route, "r");
            assert_eq!(ev.from, "ann");
        },
        HandleReply::Withdrawn(_) => panic!("expected a purchase reply"),
    }
    assert!(m.mint(&"contract".to_string(), 6));
    let reply = m.handle("admin".to_string(), coins(0, "gold"), HandleMsg::Withdraw {}).unwrap();
    match reply {
        HandleReply::Withdrawn(amount) => assert_eq!(amount, 6),
        HandleReply::Purchased(_) => panic!("expected a withdrawal reply"),
    }
    let res = m.handle("ann".to_string(), coins(0, "gold"), HandleMsg::Withdraw {});
    assert!(matches!(res, Err(ContractError::Unauthorized)));
}

#[test]
fn mint_refuses_overflow() {
    let mut m = market("admin", "gold");
    assert!(m.mint(&"ann".to_string(), u128::MAX));
    assert!(!m.mint(&"ann".to_string(), 1));
    assert_eq!(m.balance_of(&"ann".to_string()), u128::MAX);
}

#[test]
fn content_response_from_record() {
    let mut m = market("admin", "gold");
    assert!(m.mint(&"ann".to_string(), 2));
    m.purchase("r".to_string(), "body".to_string(), "ann".to_string(), coins(2, "gold")).unwrap();
    let rec = m.get(&"r".to_string()).unwrap();
    let resp = ContentResponse::from(rec);
    assert_eq!(resp.content, "body");
    assert_eq!(resp.price.amount, 2);
    assert_eq!(resp.price.denom, "gold");
}
