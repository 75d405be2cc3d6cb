//! Escrow custody core.
//!
//! The crate decides whether and how much value an escrow may move. Every
//! fund-moving call passes two independent guards before the ledger is
//! touched: a per-signer, strictly sequential nonce (replay protection) and
//! a sliding-window circuit breaker (systemic protection). Moving the value
//! itself, authenticating the caller, reading the clock and persisting state
//! are left to the embedding program; the types here hold plain values only.
//!
//! * [`nonce`]: the per-signer counters.
//! * [`threshold_monitor`]: the circuit breaker.
//! * [`ledger`]: the books of one escrow.
//! * [`program`]: the program escrow, which pays from one ledger.
//! * [`bounty`]: the bounty escrow, which releases whole buckets.
//! * [`events`]: the facts an escrow reports.

pub mod address;
pub mod bounty;
pub mod error;
pub mod events;
pub mod ledger;
pub mod nonce;
pub mod program;
pub mod threshold_monitor;

pub use address::Address;
pub use bounty::{BountyEscrowContract, BountyParties, Escrow, EscrowStatus};
pub use error::{BreachMetric, EscrowError};
pub use events::ContractEvent;
pub use ledger::{EscrowLedger, PayoutRecord, ProgramData};
pub use nonce::{get_nonce, validate_and_increment_nonce, NonceKey, NonceRegistry};
pub use program::ProgramEscrowContract;
pub use threshold_monitor::{
    MonitorState, Refusal, ThresholdBreach, ThresholdConfig, ThresholdKey, ThresholdMonitor,
    WindowMetrics,
};
