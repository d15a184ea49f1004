use zephyrchain::chain::block::Block;
use zephyrchain::chain::transaction::Transaction;
use zephyrchain::mining::block_producer::{build_block_template, calculate_difficulty, create_block_template};

fn latest(difficulty: u64, timestamp: i64) -> Block {
    Block {
        block_number: 41,
        previous_block_hash: "prev".to_string(),
        timestamp,
        transactions: vec![],
        nonce: 7,
        block_reward: 5,
        difficulty,
    }
}

#[test]
fn fast_blocks_raise_difficulty() {
    assert_eq!(calculate_difficulty(10, 1000, 1005, 10), 11);
}

#[test]
fn slow_blocks_lower_difficulty() {
    assert_eq!(calculate_difficulty(10, 1000, 1020, 10), 9);
}

#[test]
fn on_time_blocks_keep_difficulty() {
    assert_eq!(calculate_difficulty(10, 1000, 1010, 10), 10);
}

#[test]
fn later_block_is_never_harder() {
    let mut previous = calculate_difficulty(10, 1000, 990, 10);
    for now in 991..1040 {
        let d = calculate_difficulty(10, 1000, now, 10);
        assert!(d <= previous);
        assert!(d + 1 >= 10 && d <= 11);
        previous = d;
    }
}

#[test]
fn template_follows_latest_block() {
    let txs = vec![Transaction::new(1, 2, 3, 4)];
    let b = build_block_template(&latest(10, 1000), "hash41".to_string(), txs.clone(), 50, 10, 1003).unwrap();
    assert_eq!(b.block_number, 42);
    assert_eq!(b.previous_block_hash, "hash41");
    assert_eq!(b.timestamp, 1003);
    assert_eq!(b.transactions, txs);
    assert_eq!(b.nonce, 0);
    assert_eq!(b.block_reward, 50);
    assert_eq!(b.difficulty, 11);
}

#[test]
fn template_refused_when_difficulty_would_overflow() {
    assert!(build_block_template(&latest(u64::MAX, 1000), "h".to_string(), vec![], 50, 10, 1001).is_none());
    assert!(build_block_template(&latest(0, 1000), "h".to_string(), vec![], 50, 10, 1100).is_none());
    assert!(build_block_template(&latest(0, 1000), "h".to_string(), vec![], 50, 10, 1005).is_some());
}

#[test]
fn template_refused_when_elapsed_time_overflows() {
    assert!(build_block_template(&latest(5, i64::MIN), "h".to_string(), vec![], 50, 10, i64::MAX).is_none());
}

#[test]
fn template_made_now_is_after_old_block() {
    let b = create_block_template(&latest(10, 0), "h".to_string(), vec![], 50, 10).unwrap();
    assert_eq!(b.block_number, 42);
    assert!(b.timestamp > 1_600_000_000);
    assert_eq!(b.difficulty, 9);
}

#[test]
fn template_made_now_follows_a_recent_block() {
    let recent = latest(7, 1_700_000_000);
    let b = create_block_template(&recent, "h".to_string(), vec![], 50, 10).unwrap();
    assert_eq!(b.block_number, 42);
    assert_eq!(b.previous_block_hash, "h");
    assert_eq!(b.nonce, 0);
    assert_eq!(b.block_reward, 50);
    assert!(b.timestamp >= 1_700_000_000);
    assert_eq!(b.difficulty, 6);
}
