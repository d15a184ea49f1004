pub mod block;
pub mod transaction;
