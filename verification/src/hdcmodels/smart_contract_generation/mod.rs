pub mod optimization;
pub mod code_generation;
