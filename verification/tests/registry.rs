use plutocratic_hosting::coin::Coin;
use plutocratic_hosting::errors::ContractError;
use plutocratic_hosting::tracker::ContentTracker;

#[test]
fn lib_basic_initialize() {
    let contract = ContentTracker::new("bob".to_string());
    assert!(contract.get_route("test".to_string()).is_none());
}

#[test]
fn tracker_get_returns_whole_record() {
    let mut tracker = ContentTracker::new("admin".to_string());
    let verdict = tracker.validate_purchase(&"home".to_string(), &Coin::new("coin".to_string(), 3));
    assert!(matches!(verdict, Ok(None)));
    let ev = tracker.commit_purchase(
        "home".to_string(),
        "hello".to_string(),
        "alice".to_string(),
        Coin::new("coin".to_string(), 3),
    );
    assert_eq!(ev.route, "home");
    assert_eq!(ev.from, "alice");
    let rec = tracker.get(&"home".to_string()).unwrap();
    assert_eq!(rec.content, "hello");
    assert_eq!(rec.owner, "alice");
    assert_eq!(rec.price.amount, 3);
    assert_eq!(rec.price.denom, "coin");
    assert!(tracker.get(&"elsewhere".to_string()).is_none());
}

#[test]
fn tracker_validation_order_and_payloads() {
    let mut tracker = ContentTracker::new("admin".to_string());
    // A zero deposit is turned away before anything else is looked at.
    let verdict = tracker.validate_purchase(&"r".to_string(), &Coin::new("coin".to_string(), 0));
    assert!(matches!(
        verdict,
        Err(ContractError::InsufficientDeposit { sent: 0, required: 0 })
    ));
    tracker.commit_purchase(
        "r".to_string(),
        "c".to_string(),
        "alice".to_string(),
        Coin::new("coin".to_string(), 5),
    );
    // Wrong denomination against a claimed route.
    let verdict = tracker.validate_purchase(&"r".to_string(), &Coin::new("other".to_string(), 9));
    assert!(matches!(verdict, Err(ContractError::InvalidFunds)));
    // A deposit equal to the price is not strictly greater.
    let verdict = tracker.validate_purchase(&"r".to_string(), &Coin::new("coin".to_string(), 5));
    assert!(matches!(
        verdict,
        Err(ContractError::InsufficientDeposit { sent: 5, required: 5 })
    ));
    // A strictly greater deposit names the refund owed to the displaced owner.
    let verdict = tracker.validate_purchase(&"r".to_string(), &Coin::new("coin".to_string(), 6));
    let refund = verdict.unwrap().unwrap();
    assert_eq!(refund.to, "alice");
    assert_eq!(refund.amount.amount, 5);
    assert_eq!(refund.amount.denom, "coin");
}

#[test]
fn tracker_is_admin_only_for_owner() {
    let tracker = ContentTracker::new("root".to_string());
    assert!(tracker.is_admin(&"root".to_string()));
    assert!(!tracker.is_admin(&"user".to_string()));
}
