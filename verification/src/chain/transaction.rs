use vstd::prelude::*;

verus! {

/// A transfer between two accounts, identified by its id.
///
/// Two transactions are equal exactly when all their fields are equal.
#[derive(Clone, Copy, Debug, PartialEq, Eq, Hash, Structural)]
pub struct Transaction {
    pub id: u64,
    pub sender: u64,
    pub recipient: u64,
    pub amount: u64,
}

impl Transaction {
    pub fn new(id: u64, sender: u64, recipient: u64, amount: u64) -> (tx: Transaction)
        ensures
            tx == (Transaction { id, sender, recipient, amount }),
    {
        Transaction { id, sender, recipient, amount }
    }
}

} // verus!
