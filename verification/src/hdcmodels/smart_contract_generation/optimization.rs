use vstd::prelude::*;
use crate::text::prefixed;

verus! {

/// The header line that marks code optimised for resource utilisation.
pub open spec fn resource_header() -> Seq<char> {
    "// Optimized for Resource Utilization\n"@
}

/// The header line that marks code optimised for execution efficiency.
pub open spec fn efficiency_header() -> Seq<char> {
    "// Optimized for Execution Efficiency\n"@
}

/// The header line that marks code hardened for security.
pub open spec fn hardening_header() -> Seq<char> {
    "// Optimized for Security Hardening\n"@
}

/// What the three optimisation passes make of `code`, applied in order:
/// resource utilisation, execution efficiency, then security hardening.
pub open spec fn fully_optimized(code: Seq<char>) -> Seq<char> {
    hardening_header() + (efficiency_header() + (resource_header() + code))
}

/// The optimiser that each smart-contract optimisation pass is delegated to.
#[derive(Clone, Copy, Debug)]
pub struct QuantumSecureOptimizer;

impl QuantumSecureOptimizer {
    /// Marks `code` as optimised for resource utilisation.
    pub fn optimize_resource_utilization(&self, code: &str) -> (s: String)
        ensures
            s@ == resource_header() + code@,
    {
        prefixed("// Optimized for Resource Utilization\n", code)
    }

    /// Marks `code` as optimised for execution efficiency.
    pub fn optimize_execution_efficiency(&self, code: &str) -> (s: String)
        ensures
            s@ == efficiency_header() + code@,
    {
        prefixed("// Optimized for Execution Efficiency\n", code)
    }

    /// Marks `code` as hardened for security.
    pub fn optimize_security_hardening(&self, code: &str) -> (s: String)
        ensures
            s@ == hardening_header() + code@,
    {
        prefixed("// Optimized for Security Hardening\n", code)
    }
}

/// Runs the optimisation passes of a `QuantumSecureOptimizer` over smart-contract code.
pub struct SmartContractOptimizer {
    optimizer: QuantumSecureOptimizer,
}

impl SmartContractOptimizer {
    pub fn new(optimizer: QuantumSecureOptimizer) -> (o: Self)
        ensures
            o.optimizer() == optimizer,
    {
        SmartContractOptimizer { optimizer }
    }

    /// The optimiser the passes are delegated to.
    pub closed spec fn optimizer(&self) -> QuantumSecureOptimizer {
        self.optimizer
    }

    /// Applies the resource, efficiency and hardening passes, in that order.
    pub fn optimize_code(&self, code: &str) -> (s: String)
        ensures
            s@ == fully_optimized(code@),
    {
        let optimized = self.optimize_resource_utilization(code);
        let optimized = self.optimize_execution_efficiency(optimized.as_str());
        self.optimize_security_hardening(optimized.as_str())
    }

    pub fn optimize_resource_utilization(&self, code: &str) -> (s: String)
        ensures
            s@ == resource_header() + code@,
    {
        self.optimizer.optimize_resource_utilization(code)
    }

    pub fn optimize_execution_efficiency(&self, code: &str) -> (s: String)
        ensures
            s@ == efficiency_header() + code@,
    {
        self.optimizer.optimize_execution_efficiency(code)
    }

    pub fn optimize_security_hardening(&self, code: &str) -> (s: String)
        ensures
            s@ == hardening_header() + code@,
    {
        self.optimizer.optimize_security_hardening(code)
    }
}

} // verus!
