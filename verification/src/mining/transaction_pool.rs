use vstd::prelude::*;
use crate::chain::transaction::Transaction;

verus! {

/// A bounded pool of pending transactions in which no transaction occurs twice.
///
/// The pool is viewed as the set of transactions it holds.
pub struct TransactionPool {
    transactions: Vec<Transaction>,
    capacity: usize,
}

impl View for TransactionPool {
    type V = Set<Transaction>;

    closed spec fn view(&self) -> Set<Transaction> {
        self.transactions@.to_set()
    }
}

/// Removing the element at position `i` of a sequence without duplicates removes
/// exactly that element from its set of elements.
proof fn lemma_remove_index_to_set(s: Seq<Transaction>, i: int)
    requires
        s.no_duplicates(),
        0 <= i < s.len(),
    ensures
        s.remove(i).to_set() =~= s.to_set().remove(s[i]),
        s.remove(i).no_duplicates(),
{
    let r = s.remove(i);
    assert forall|x: Transaction| r.to_set().contains(x) <==> s.to_set().remove(s[i]).contains(x) by {
        if r.to_set().contains(x) {
            let k = choose|k: int| 0 <= k < r.len() && r[k] == x;
            if k < i {
                assert(s[k] == x);
            } else {
                assert(s[k + 1] == x);
            }
        }
        if s.to_set().remove(s[i]).contains(x) {
            let k = choose|k: int| 0 <= k < s.len() && s[k] == x;
            assert(k != i);
            if k < i {
                assert(r[k] == x);
            } else {
                assert(r[k - 1] == x);
            }
        }
    }
}

/// Whether a pool holding `pool`, with room for `capacity` transactions,
/// accepts `transaction`: its history proof verified, the pool is not full and
/// does not hold it yet.
pub open spec fn accepts(pool: Set<Transaction>, capacity: nat, transaction: Transaction, history_proof_verified: bool) -> bool {
    history_proof_verified && pool.len() < capacity && !pool.contains(transaction)
}

/// The transactions held after offering `transaction` to a pool holding `pool`.
pub open spec fn pool_after_add(pool: Set<Transaction>, capacity: nat, transaction: Transaction, history_proof_verified: bool) -> Set<Transaction> {
    if accepts(pool, capacity, transaction, history_proof_verified) {
        pool.insert(transaction)
    } else {
        pool
    }
}

/// The transactions held after removing `transaction` from a pool holding `pool`.
pub open spec fn pool_after_remove(pool: Set<Transaction>, transaction: Transaction) -> Set<Transaction> {
    pool.remove(transaction)
}

impl TransactionPool {
    #[verifier::type_invariant]
    spec fn inv(self) -> bool {
        &&& self.transactions@.no_duplicates()
        &&& self.transactions@.len() <= self.capacity
    }

    /// The largest number of transactions the pool accepts.
    pub closed spec fn capacity_spec(&self) -> nat {
        self.capacity as nat
    }

    /// Creates an empty pool that holds at most `capacity` transactions.
    pub fn new(capacity: usize) -> (pool: Self)
        ensures
            pool@ == Set::<Transaction>::empty(),
            pool.capacity_spec() == capacity,
    {
        let pool = TransactionPool { transactions: Vec::new(), capacity };
        assert(pool.transactions@.to_set() =~= Set::<Transaction>::empty());
        pool
    }

    fn position(&self, transaction: &Transaction) -> (r: Option<usize>)
        ensures
            match r {
                Some(i) => i < self.transactions@.len() && self.transactions@[i as int] == *transaction,
                None => !self.transactions@.contains(*transaction),
            },
    {
        let mut i: usize = 0;
        while i < self.transactions.len()
            invariant
                i <= self.transactions@.len(),
                forall|k: int| 0 <= k < i ==> self.transactions@[k] != *transaction,
            decreases self.transactions@.len() - i,
        {
            if self.transactions[i] == *transaction {
                return Some(i);
            }
            i = i + 1;
        }
        None
    }

    /// Adds a transaction whose history proof has been checked.
    ///
    /// The transaction is refused (and `false` returned) when its history proof did
    /// not verify, when the pool is full, or when it is already in the pool;
    /// otherwise it is added and `true` is returned.
    pub fn add_transaction(&mut self, transaction: Transaction, history_proof_verified: bool) -> (added: bool)
        ensures
            added == accepts(old(self)@, old(self).capacity_spec(), transaction, history_proof_verified),
            final(self)@ == pool_after_add(old(self)@, old(self).capacity_spec(), transaction, history_proof_verified),
            final(self).capacity_spec() == old(self).capacity_spec(),
    {
        proof {
            use_type_invariant(&*self);
            self.transactions@.unique_seq_to_set();
        }
        if !history_proof_verified {
            return false;
        }
        if self.transactions.len() >= self.capacity {
            return false;
        }
        match self.position(&transaction) {
            Some(_) => false,
            None => {
                let mut txs = Vec::new();
                std::mem::swap(&mut txs, &mut self.transactions);
                let ghost before = txs@;
                txs.push(transaction);
                proof {
                    assert(txs@ =~= before.push(transaction));
                    assert(txs@.to_set() =~= before.to_set().insert(transaction)) by {
                        assert forall|x: Transaction| txs@.to_set().contains(x)
                            <==> before.to_set().insert(transaction).contains(x) by {
                            if txs@.contains(x) && x != transaction {
                                let k = choose|k: int| 0 <= k < txs@.len() && txs@[k] == x;
                                assert(before[k] == x);
                            }
                            if before.contains(x) {
                                let k = choose|k: int| 0 <= k < before.len() && before[k] == x;
                                assert(txs@[k] == x);
                            }
                            if x == transaction {
                                assert(txs@[before.len() as int] == x);
                            }
                        }
                    }
                }
                self.transactions = txs;
                true
            },
        }
    }

    /// Removes a transaction; returns whether it was in the pool.
    pub fn remove_transaction(&mut self, transaction: &Transaction) -> (removed: bool)
        ensures
            removed == old(self)@.contains(*transaction),
            final(self)@ == pool_after_remove(old(self)@, *transaction),
            final(self).capacity_spec() == old(self).capacity_spec(),
    {
        proof {
            use_type_invariant(&*self);
        }
        match self.position(transaction) {
            Some(i) => {
                let mut txs = Vec::new();
                std::mem::swap(&mut txs, &mut self.transactions);
                let ghost before = txs@;
                txs.remove(i);
                proof {
                    lemma_remove_index_to_set(before, i as int);
                }
                self.transactions = txs;
                true
            },
            None => {
                assert(self.transactions@.to_set().remove(*transaction) =~= self.transactions@.to_set());
                false
            },
        }
    }

    /// All transactions in the pool, each exactly once.
    pub fn get_transactions(&self) -> (txs: Vec<Transaction>)
        ensures
            txs@.to_set() == self@,
            txs@.no_duplicates(),
            txs@.len() == self@.len(),
    {
        proof {
            use_type_invariant(self);
            self.transactions@.unique_seq_to_set();
        }
        self.transactions.clone()
    }

    /// Empties the pool.
    pub fn clear(&mut self)
        ensures
            final(self)@ == Set::<Transaction>::empty(),
            final(self).capacity_spec() == old(self).capacity_spec(),
    {
        self.transactions = Vec::new();
        assert(self.transactions@.to_set() =~= Set::<Transaction>::empty());
    }

    /// The number of transactions in the pool, which never exceeds its capacity.
    pub fn len(&self) -> (n: usize)
        ensures
            n == self@.len(),
            n <= self.capacity_spec(),
    {
        proof {
            use_type_invariant(self);
            self.transactions@.unique_seq_to_set();
        }
        self.transactions.len()
    }

    /// Whether the pool holds no transaction.
    pub fn is_empty(&self) -> (b: bool)
        ensures
            b == (self@.len() == 0),
    {
        self.len() == 0
    }

    /// Whether the transaction is in the pool.
    pub fn contains(&self, transaction: &Transaction) -> (b: bool)
        ensures
            b == self@.contains(*transaction),
    {
        self.position(transaction).is_some()
    }
}

/// Removing a transaction right after the pool accepted it leaves the pool as
/// it was before: an accepted addition is undone by its removal.
pub proof fn lemma_add_then_remove_restores(
    pool: Set<Transaction>,
    capacity: nat,
    transaction: Transaction,
    history_proof_verified: bool,
)
    requires
        accepts(pool, capacity, transaction, history_proof_verified),
    ensures
        pool_after_remove(pool_after_add(pool, capacity, transaction, history_proof_verified), transaction) == pool,
{
    assert(pool.insert(transaction).remove(transaction) =~= pool);
}

/// A transaction that is already in the pool is never added a second time:
/// the pool refuses it and stays unchanged, whatever the proof and the room left.
pub proof fn lemma_present_transaction_not_added_again(
    pool: Set<Transaction>,
    capacity: nat,
    transaction: Transaction,
    history_proof_verified: bool,
)
    requires
        pool.contains(transaction),
    ensures
        !accepts(pool, capacity, transaction, history_proof_verified),
        pool_after_add(pool, capacity, transaction, history_proof_verified) == pool,
{
}

/// Offering transactions never takes a pool past its capacity.
pub proof fn lemma_add_respects_capacity(
    pool: Set<Transaction>,
    capacity: nat,
    transaction: Transaction,
    history_proof_verified: bool,
)
    requires
        pool.finite(),
        pool.len() <= capacity,
    ensures
        pool_after_add(pool, capacity, transaction, history_proof_verified).len() <= capacity,
{
}

} // verus!
