use vstd::prelude::*;
use crate::hdcmodels::smart_contract_generation::optimization::QuantumSecureOptimizer;
use crate::text::prefixed;

verus! {

/// The header line that marks code protected by a quantum-secure hash function.
pub open spec fn hash_function_header() -> Seq<char> {
    "// Quantum-Secure Hash Function\n"@
}

/// The header line that marks code protected by a quantum-secure signature scheme.
pub open spec fn signature_scheme_header() -> Seq<char> {
    "// Quantum-Secure Signature Scheme\n"@
}

/// Generated smart-contract code with its security measures: the hash
/// function is added first, then the signature scheme.
pub open spec fn secured(code: Seq<char>) -> Seq<char> {
    signature_scheme_header() + (hash_function_header() + code)
}

/// Adds the security measures to generated smart contracts, with the
/// optimiser that generated code goes through.
pub struct SmartContractGenerator {
    optimizer: QuantumSecureOptimizer,
}

impl SmartContractGenerator {
    pub fn new(optimizer: QuantumSecureOptimizer) -> (g: Self)
        ensures
            g.optimizer() == optimizer,
    {
        SmartContractGenerator { optimizer }
    }

    /// The optimiser that generated code goes through.
    pub closed spec fn optimizer(&self) -> QuantumSecureOptimizer {
        self.optimizer
    }

    /// Adds the quantum-secure hash function for data integrity, then the
    /// quantum-secure signature scheme for authentication.
    pub fn add_security_measures(&self, code: &str) -> (s: String)
        ensures
            s@ == secured(code@),
    {
        let secure_code = self.add_hash_function(code);
        self.add_signature_scheme(secure_code.as_str())
    }

    /// Marks `code` as protected by a quantum-secure hash function.
    pub fn add_hash_function(&self, code: &str) -> (s: String)
        ensures
            s@ == hash_function_header() + code@,
    {
        prefixed("// Quantum-Secure Hash Function\n", code)
    }

    /// Marks `code` as protected by a quantum-secure signature scheme.
    pub fn add_signature_scheme(&self, code: &str) -> (s: String)
        ensures
            s@ == signature_scheme_header() + code@,
    {
        prefixed("// Quantum-Secure Signature Scheme\n", code)
    }
}

} // verus!
