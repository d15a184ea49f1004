use zephyrchain::chain::transaction::Transaction;
use zephyrchain::mining::transaction_pool::TransactionPool;

fn tx(id: u64) -> Transaction {
    Transaction::new(id, 1, 2, 10 * id)
}

#[test]
fn added_transaction_is_contained() {
    let mut pool = TransactionPool::new(3);
    assert!(pool.is_empty());
    assert!(pool.add_transaction(tx(1), true));
    assert!(pool.contains(&tx(1)));
    assert_eq!(pool.len(), 1);
    assert!(!pool.is_empty());
}

#[test]
fn unverified_history_is_refused() {
    let mut pool = TransactionPool::new(3);
    assert!(!pool.add_transaction(tx(1), false));
    assert!(pool.is_empty());
}

#[test]
fn duplicate_is_refused() {
    let mut pool = TransactionPool::new(3);
    assert!(pool.add_transaction(tx(1), true));
    assert!(!pool.add_transaction(tx(1), true));
    assert_eq!(pool.len(), 1);
}

#[test]
fn full_pool_refuses_more() {
    let mut pool = TransactionPool::new(2);
    assert!(pool.add_transaction(tx(1), true));
    assert!(pool.add_transaction(tx(2), true));
    assert!(!pool.add_transaction(tx(3), true));
    assert_eq!(pool.len(), 2);
    assert!(!pool.contains(&tx(3)));
}

#[test]
fn zero_capacity_pool_accepts_nothing() {
    let mut pool = TransactionPool::new(0);
    assert!(!pool.add_transaction(tx(1), true));
    assert_eq!(pool.len(), 0);
}

#[test]
fn remove_undoes_add() {
    let mut pool = TransactionPool::new(5);
    assert!(pool.add_transaction(tx(1), true));
    assert!(pool.add_transaction(tx(2), true));
    let before = pool.get_transactions();
    assert!(pool.add_transaction(tx(3), true));
    assert!(pool.remove_transaction(&tx(3)));
    let mut after = pool.get_transactions();
    let mut before_sorted = before.clone();
    before_sorted.sort_by_key(|t| t.id);
    after.sort_by_key(|t| t.id);
    assert_eq!(after, before_sorted);
}

#[test]
fn removing_absent_transaction_reports_false() {
    let mut pool = TransactionPool::new(5);
    assert!(pool.add_transaction(tx(1), true));
    assert!(!pool.remove_transaction(&tx(2)));
    assert_eq!(pool.len(), 1);
}

#[test]
fn removal_frees_room() {
    let mut pool = TransactionPool::new(1);
    assert!(pool.add_transaction(tx(1), true));
    assert!(pool.remove_transaction(&tx(1)));
    assert!(pool.add_transaction(tx(2), true));
}

#[test]
fn transactions_are_listed_once_each() {
    let mut pool = TransactionPool::new(5);
    for i in 0..4 {
        assert!(pool.add_transaction(tx(i), true));
    }
    let mut listed = pool.get_transactions();
    listed.sort_by_key(|t| t.id);
    assert_eq!(listed, vec![tx(0), tx(1), tx(2), tx(3)]);
}

#[test]
fn clear_empties_the_pool() {
    let mut pool = TransactionPool::new(5);
    assert!(pool.add_transaction(tx(1), true));
    pool.clear();
    assert!(pool.is_empty());
    assert!(!pool.contains(&tx(1)));
    assert!(pool.add_transaction(tx(1), true));
}

#[test]
fn transactions_differing_in_one_field_are_distinct() {
    let mut pool = TransactionPool::new(5);
    assert!(pool.add_transaction(Transaction::new(1, 1, 2, 3), true));
    assert!(pool.add_transaction(Transaction::new(1, 1, 2, 4), true));
    assert_eq!(pool.len(), 2);
}
