pub mod bid;
pub mod errors;
pub mod marketplace;
pub mod message_format;
pub mod task;
