use vstd::prelude::*;
use crate::chain::transaction::Transaction;

verus! {

/// A block of the chain.
#[derive(Clone, Debug)]
pub struct Block {
    pub block_number: u64,
    pub previous_block_hash: String,
    /// Seconds since the Unix epoch at which the block was made.
    pub timestamp: i64,
    pub transactions: Vec<Transaction>,
    pub nonce: u64,
    pub block_reward: u64,
    pub difficulty: u64,
}

/// The content of a block: its hash as characters and its transactions as a
/// sequence.
pub struct BlockModel {
    pub block_number: u64,
    pub previous_block_hash: Seq<char>,
    pub timestamp: i64,
    pub transactions: Seq<Transaction>,
    pub nonce: u64,
    pub block_reward: u64,
    pub difficulty: u64,
}

impl View for Block {
    type V = BlockModel;

    open spec fn view(&self) -> BlockModel {
        BlockModel {
            block_number: self.block_number,
            previous_block_hash: self.previous_block_hash@,
            timestamp: self.timestamp,
            transactions: self.transactions@,
            nonce: self.nonce,
            block_reward: self.block_reward,
            difficulty: self.difficulty,
        }
    }
}

} // verus!
