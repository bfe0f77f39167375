use vstd::prelude::*;

verus! {

/// Error raised by the risk figures when the proposed divisor fails its
/// divisibility test.
#[derive(Debug, Clone, Copy, PartialEq, Eq, Structural)]
pub enum RiskError {
    ZeroDivision,
}

/// Error raised when a process model or a sampler is constructed from
/// vectors and matrices whose shapes disagree.  The violation is
/// non-retryable: the caller must fix the configuration.
#[derive(Debug, Clone, Copy, PartialEq, Eq, Structural)]
pub enum SimulationError {
    InvalidDimension,
}

impl RiskError {
    /// A short description, in place of a `Display` implementation.
    pub fn message(&self) -> String {
        "division by 0".to_string()
    }
}

} // verus!
