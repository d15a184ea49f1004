pub mod block_producer;
pub mod transaction_pool;
