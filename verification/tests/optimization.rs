use zephyrchain::hdcmodels::smart_contract_generation::optimization::{QuantumSecureOptimizer, SmartContractOptimizer};

#[test]
fn each_pass_adds_its_header() {
    let o = QuantumSecureOptimizer;
    assert_eq!(o.optimize_resource_utilization("fn f() {}"), "// Optimized for Resource Utilization\nfn f() {}");
    assert_eq!(o.optimize_execution_efficiency(""), "// Optimized for Execution Efficiency\n");
    assert_eq!(o.optimize_security_hardening("x"), "// Optimized for Security Hardening\nx");
}

#[test]
fn optimize_code_applies_the_passes_in_order() {
    let o = SmartContractOptimizer::new(QuantumSecureOptimizer);
    assert_eq!(
        o.optimize_code("contract"),
        "// Optimized for Security Hardening\n// Optimized for Execution Efficiency\n// Optimized for Resource Utilization\ncontract"
    );
}

#[test]
fn smart_contract_optimizer_delegates_each_pass() {
    let o = SmartContractOptimizer::new(QuantumSecureOptimizer);
    assert_eq!(o.optimize_resource_utilization("c"), "// Optimized for Resource Utilization\nc");
    assert_eq!(o.optimize_execution_efficiency("c"), "// Optimized for Execution Efficiency\nc");
    assert_eq!(o.optimize_security_hardening("c"), "// Optimized for Security Hardening\nc");
}

use zephyrchain::hdcmodels::smart_contract_generation::code_generation::SmartContractGenerator;

#[test]
fn security_measures_add_hash_then_signature() {
    let g = SmartContractGenerator::new(QuantumSecureOptimizer);
    assert_eq!(g.add_hash_function("c"), "// Quantum-Secure Hash Function\nc");
    assert_eq!(g.add_signature_scheme("c"), "// Quantum-Secure Signature Scheme\nc");
    assert_eq!(
        g.add_security_measures("contract Vault {}"),
        "// Quantum-Secure Signature Scheme\n// Quantum-Secure Hash Function\ncontract Vault {}"
    );
}
