//! The errors an escrow operation can report.

use vstd::prelude::*;

verus! {

/// The metric whose bound was exceeded when the circuit breaker tripped.
#[derive(Clone, Copy, Debug, PartialEq, Eq, Structural, Hash)]
pub enum BreachMetric {
    /// More failed operations in the window than the configured bound.
    FailureRate,
    /// More total outflow in the window than the configured bound.
    OutflowVolume,
    /// A single requested transfer larger than the configured cap.
    SinglePayout,
}

impl BreachMetric {
    /// The short name under which the metric is reported.
    pub open spec fn spec_label(self) -> &'static str {
        match self {
            BreachMetric::FailureRate => "failure",
            BreachMetric::OutflowVolume => "outflow",
            BreachMetric::SinglePayout => "single_payout",
        }
    }

    /// The short name under which the metric is reported.
    pub fn label(&self) -> (name: &'static str)
        ensures
            name == self.spec_label(),
    {
        match self {
            BreachMetric::FailureRate => "failure",
            BreachMetric::OutflowVolume => "outflow",
            BreachMetric::SinglePayout => "single_payout",
        }
    }
}

/// Why an escrow operation was refused.
///
/// Errors are reported synchronously to the caller of the failing
/// operation; the core never retries on its own.
#[derive(Clone, Copy, Debug, PartialEq, Eq)]
pub enum EscrowError {
    /// The escrow already exists.
    AlreadyInitialized,
    /// The escrow has not been created yet.
    NotInitialized,
    /// An amount that must be positive is zero or negative, or a sum of
    /// amounts cannot be represented.
    InvalidAmount,
    /// The requested amount exceeds the remaining balance.
    InsufficientBalance,
    /// The supplied nonce is not the signer's current one.
    InvalidNonce { expected: u64, got: u64 },
    /// The addressed bucket is not in a state that allows the operation.
    InvalidStatus,
    /// A configured bound was exceeded and the circuit breaker tripped.
    ThresholdBreached { metric: BreachMetric, threshold: i128, actual: i128 },
    /// The circuit breaker is open until the given time.
    CooldownActive { until: u64 },
    /// A threshold configuration was rejected as a whole.
    InvalidThresholdConfig { reason: &'static str },
}

} // verus!
