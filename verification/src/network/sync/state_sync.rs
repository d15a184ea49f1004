use vstd::prelude::*;
use crate::chain::block::Block;
use crate::chain::transaction::Transaction;

verus! {

/// The changes to a shard's state since an earlier sync.
#[derive(Clone, Debug)]
pub struct ShardStateDelta {
    pub transactions: Vec<Transaction>,
    pub blocks: Vec<Block>,
}

/// A message of the state synchronisation between nodes. A shard's state and
/// a signature travel as their serialized bytes.
#[derive(Clone, Debug)]
pub enum StateSyncMessage {
    RequestState { shard_id: u64 },
    StateResponse { shard_id: u64, state: Vec<u8>, signature: Vec<u8> },
    StateDeltaRequest { shard_id: u64, last_sync_hash: String },
    StateDeltaResponse { shard_id: u64, state_delta: ShardStateDelta, signature: Vec<u8> },
}

} // verus!
