pub mod performance_optimization;
pub mod qup_integration;
pub mod smart_contract_generation;
