use zephyrchain::clock::UtcTimestamp;
use zephyrchain::marketplace::bid::Bid;
use zephyrchain::marketplace::errors::MarketplaceError;
use zephyrchain::marketplace::marketplace::Marketplace;
use zephyrchain::marketplace::task::Task;

fn at(seconds: i64) -> UtcTimestamp {
    UtcTimestamp::new(seconds, 0)
}

fn task(id: u64, deadline: i64) -> Task {
    Task::new(
        id,
        "train a model".to_string(),
        vec!["gpu".to_string()],
        50,
        at(deadline),
        "alice".to_string(),
    )
}

fn bid(node: &str, proposed: i64) -> Bid {
    Bid::new(node.to_string(), at(proposed), 40, "proof".to_string(), at(0))
}

#[test]
fn valid_task_is_offered() {
    let mut m = Marketplace::new();
    assert_eq!(m.add_task_at(task(1, 100), at(10)), Ok(()));
    assert_eq!(m.get_task(1).unwrap().id, 1);
    assert!(m.get_task(2).is_none());
}

#[test]
fn empty_description_is_refused() {
    let mut m = Marketplace::new();
    let mut t = task(1, 100);
    t.description = String::new();
    assert_eq!(m.add_task_at(t, at(10)), Err("Description cannot be empty".to_string()));
    assert!(m.get_task(1).is_none());
}

#[test]
fn empty_resources_are_refused() {
    let mut m = Marketplace::new();
    let mut t = task(1, 100);
    t.resources = vec![];
    assert_eq!(m.add_task_at(t, at(10)), Err("Resources cannot be empty".to_string()));
}

#[test]
fn zero_reward_is_refused() {
    let mut m = Marketplace::new();
    let mut t = task(1, 100);
    t.reward = 0;
    assert_eq!(m.add_task_at(t, at(10)), Err("Reward must be greater than zero".to_string()));
}

#[test]
fn past_or_present_deadline_is_refused() {
    let mut m = Marketplace::new();
    assert_eq!(m.add_task_at(task(1, 10), at(10)), Err("Deadline must be in the future".to_string()));
    assert_eq!(m.add_task_at(task(1, 5), at(10)), Err("Deadline must be in the future".to_string()));
}

#[test]
fn content_is_checked_before_deadline() {
    let mut m = Marketplace::new();
    let mut t = task(1, 5);
    t.reward = 0;
    assert_eq!(m.add_task_at(t, at(10)), Err("Reward must be greater than zero".to_string()));
}

#[test]
fn nanoseconds_decide_the_deadline() {
    let t = task(1, 10);
    assert_eq!(t.validate_at(UtcTimestamp::new(9, 999_999_999)), Ok(()));
    assert!(t.validate_at(UtcTimestamp::new(10, 0)).is_err());
}

#[test]
fn far_future_task_validates_now() {
    assert_eq!(task(1, i64::MAX).validate(), Ok(()));
    assert_eq!(task(1, 0).validate(), Err("Deadline must be in the future".to_string()));
}

#[test]
fn task_with_same_id_is_replaced() {
    let mut m = Marketplace::new();
    assert_eq!(m.add_task_at(task(1, 100), at(10)), Ok(()));
    assert_eq!(m.add_task_at(task(1, 200), at(10)), Ok(()));
    assert_eq!(m.get_task(1).unwrap().deadline, at(200));
}

#[test]
fn bid_for_unknown_task_is_refused() {
    let mut m = Marketplace::new();
    assert_eq!(m.add_bid(7, bid("n1", 50)), Err("Task not found".to_string()));
    assert!(m.get_bids(7).is_none());
}

#[test]
fn bid_after_deadline_is_refused() {
    let mut m = Marketplace::new();
    m.add_task_at(task(1, 100), at(10)).unwrap();
    assert_eq!(m.add_bid(1, bid("n1", 101)), Err("Bid proposed time is past the task deadline".to_string()));
    assert!(m.get_bids(1).is_none());
}

#[test]
fn bid_at_deadline_is_accepted() {
    let mut m = Marketplace::new();
    m.add_task_at(task(1, 100), at(10)).unwrap();
    assert_eq!(m.add_bid(1, bid("n1", 100)), Ok(()));
    assert_eq!(m.get_bids(1).unwrap().len(), 1);
}

#[test]
fn bids_are_listed_in_order_placed() {
    let mut m = Marketplace::new();
    m.add_task_at(task(1, 100), at(10)).unwrap();
    m.add_task_at(task(2, 100), at(10)).unwrap();
    m.add_bid(1, bid("n1", 20)).unwrap();
    m.add_bid(2, bid("other", 20)).unwrap();
    m.add_bid(1, bid("n2", 30)).unwrap();
    let nodes: Vec<String> = m.get_bids(1).unwrap().iter().map(|b| b.node_id.clone()).collect();
    assert_eq!(nodes, vec!["n1".to_string(), "n2".to_string()]);
    assert_eq!(m.get_bids(2).unwrap().len(), 1);
}

#[test]
fn new_task_starts_at_version_zero_and_increments() {
    let mut t = task(1, 100);
    assert_eq!(t.version, 0);
    t.increment_version();
    t.increment_version();
    assert_eq!(t.version, 2);
    assert_eq!(t.id, 1);
}

#[test]
fn error_codes() {
    assert_eq!(MarketplaceError::InvalidTaskError("x".to_string()).code(), 1001);
    assert_eq!(MarketplaceError::InvalidBidError("x".to_string()).code(), 1002);
    assert_eq!(MarketplaceError::TaskAssignmentError("x".to_string()).code(), 1003);
    assert_eq!(MarketplaceError::RewardDistributionError("x".to_string()).code(), 1004);
    assert_eq!(MarketplaceError::NetworkError("x".to_string()).code(), 1005);
}

#[test]
fn error_texts() {
    assert_eq!(MarketplaceError::InvalidTaskError("no".to_string()).to_string(), "Invalid Task: no");
    assert_eq!(MarketplaceError::InvalidBidError("late".to_string()).to_string(), "Invalid Bid: late");
    assert_eq!(
        MarketplaceError::TaskAssignmentError("busy".to_string()).to_string(),
        "Task Assignment Error: busy"
    );
    assert_eq!(
        MarketplaceError::RewardDistributionError("gone".to_string()).to_string(),
        "Reward Distribution Error: gone"
    );
    assert_eq!(MarketplaceError::NetworkError("down".to_string()).to_string(), "Network Error: down");
}

#[test]
fn timestamps_order_by_seconds_then_nanoseconds() {
    assert!(UtcTimestamp::new(1, 5).is_before(&UtcTimestamp::new(2, 0)));
    assert!(UtcTimestamp::new(1, 5).is_before(&UtcTimestamp::new(1, 6)));
    assert!(!UtcTimestamp::new(1, 6).is_before(&UtcTimestamp::new(1, 6)));
    assert!(!UtcTimestamp::new(2, 0).is_before(&UtcTimestamp::new(1, 999)));
}
