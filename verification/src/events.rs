//! The facts an escrow reports to the outside.
//!
//! The core does not publish anything itself. Every operation appends the
//! facts it establishes to the escrow's event log, in the order in which
//! they were established; the embedding program forwards them to whatever
//! audit sink it uses.

use crate::address::Address;
use crate::threshold_monitor::ThresholdBreach;
use vstd::prelude::*;

verus! {

/// One reported fact.
#[derive(Debug, PartialEq, Eq)]
pub enum ContractEvent {
    /// A program escrow was created.
    ProgramInitialized { program_id: String, authorized_payout_key: Address, total_funds: i128 },
    /// Funds were locked into a program escrow.
    FundsLocked { program_id: String, amount: i128, remaining_balance: i128 },
    /// One payout was made from a program escrow.
    Payout { program_id: String, recipient: Address, amount: i128, remaining_balance: i128 },
    /// A batch of payouts was made from a program escrow.
    BatchPayout {
        program_id: String,
        line_items: u64,
        total_amount: i128,
        remaining_balance: i128,
    },
    /// A bounty escrow was created.
    BountyInitialized { admin: Address, token: Address },
    /// Funds were locked into a bounty bucket.
    BountyFundsLocked { bounty_id: u64, depositor: Address, amount: i128, deadline: u64 },
    /// The funds of a bounty bucket were released.
    FundsReleased { bounty_id: u64, recipient: Address, amount: i128 },
    /// The circuit breaker tripped.
    Breach(ThresholdBreach),
}

/// The event that reports `breach`, if there is one.
pub open spec fn breach_event(breach: Option<ThresholdBreach>) -> Seq<ContractEvent> {
    match breach {
        Some(b) => seq![ContractEvent::Breach(b)],
        None => Seq::empty(),
    }
}

/// The events that report `breaches`, one each, in order.
pub open spec fn breach_events(breaches: Seq<ThresholdBreach>) -> Seq<ContractEvent> {
    Seq::new(breaches.len(), |i: int| ContractEvent::Breach(breaches[i]))
}

/// Appends the event for `breach` to `log`, if there is one.
pub(crate) fn log_breach(log: &mut Vec<ContractEvent>, breach: Option<ThresholdBreach>)
    ensures
        final(log)@ == old(log)@ + breach_event(breach),
{
    match breach {
        Some(b) => {
            log.push(ContractEvent::Breach(b));
            assert(log@ =~= old(log)@ + breach_event(breach));
        },
        None => {
            assert(log@ =~= old(log)@ + breach_event(breach));
        },
    }
}

/// Appends one event per breach of `breaches` to `log`, in order.
pub(crate) fn log_breaches(log: &mut Vec<ContractEvent>, breaches: &Vec<ThresholdBreach>)
    ensures
        final(log)@ == old(log)@ + breach_events(breaches@),
{
    let mut i: usize = 0;
    assert(log@ =~= old(log)@ + breach_events(breaches@).take(0));
    while i < breaches.len()
        invariant
            i <= breaches@.len(),
            log@ == old(log)@ + breach_events(breaches@).take(i as int),
        decreases breaches@.len() - i,
    {
        log.push(ContractEvent::Breach(breaches[i]));
        assert(log@ =~= old(log)@ + breach_events(breaches@).take(i as int + 1));
        i = i + 1;
    }
    assert(breach_events(breaches@).take(breaches@.len() as int) =~= breach_events(breaches@));
}

} // verus!
