use vstd::prelude::*;
use crate::clock::UtcTimestamp;

verus! {

/// A node's offer to carry out a task.
pub struct Bid {
    pub node_id: String,
    pub proposed_time: UtcTimestamp,
    pub proposed_reward: u64,
    pub proof_of_capability: String,
    pub submission_time: UtcTimestamp,
}

impl Bid {
    pub fn new(
        node_id: String,
        proposed_time: UtcTimestamp,
        proposed_reward: u64,
        proof_of_capability: String,
        submission_time: UtcTimestamp,
    ) -> (bid: Bid)
        ensures
            bid.node_id == node_id,
            bid.proposed_time == proposed_time,
            bid.proposed_reward == proposed_reward,
            bid.proof_of_capability == proof_of_capability,
            bid.submission_time == submission_time,
    {
        Bid { node_id, proposed_time, proposed_reward, proof_of_capability, submission_time }
    }
}

} // verus!
