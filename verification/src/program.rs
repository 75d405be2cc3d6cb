//! The program escrow: one ledger behind the two guards.
//!
//! Every fund-moving call runs through the same stations, in this order:
//! the nonce of the authorized signer, the circuit breaker, the business
//! checks of the ledger, the ledger itself, and the report to the circuit
//! breaker. A call that is stopped at the nonce changes nothing at all. A
//! call that is stopped later has consumed its nonce and is visible to the
//! circuit breaker, but leaves the books untouched.
//!
//! The caller is expected to have authenticated the authorized signer before
//! a fund-moving call, and to move the value after a successful one. The
//! books are updated before the value moves. A caller that then fails to
//! move the value must not keep the updated escrow: it drops it and
//! continues from the parts it had kept before the call.

use crate::address::Address;
use crate::error::{BreachMetric, EscrowError};
use crate::events::{breach_event, breach_events, log_breach, log_breaches, ContractEvent};
use crate::ledger::{
    all_paid_positive, batch_records, lemma_batch_adds_its_total, lemma_total_is_not_negative,
    paid_total, total_of, EscrowLedger, PayoutRecord, ProgramData, ProgramView,
};
use crate::nonce::{
    get_nonce, nonce_accepted, nonce_of, nonce_step, validate_and_increment_nonce, NonceRegistry,
};
use crate::threshold_monitor::{
    bump, lemma_batch_report_keeps_window, lemma_first_over_cap, MonitorState, ThresholdConfig,
    ThresholdMonitor, WindowMetrics,
};
use vstd::prelude::*;

verus! {

/// Everything a program escrow keeps, as a mathematical value.
pub struct EscrowView {
    /// The books, once the escrow has been created.
    pub program: Option<ProgramView>,
    /// The nonce counters.
    pub nonces: Map<Address, u64>,
    /// The circuit breaker.
    pub monitor: MonitorState,
    /// The facts reported so far, oldest first.
    pub events: Seq<ContractEvent>,
}

/// What a caller is told, with the books it was handed taken as a
/// mathematical value.
pub open spec fn seen(outcome: Result<ProgramData, EscrowError>) -> Result<
    ProgramView,
    EscrowError,
> {
    match outcome {
        Ok(data) => Ok(data@),
        Err(error) => Err(error),
    }
}

impl EscrowView {
    /// The state before the escrow is created: no books, no counters, a
    /// circuit breaker with the default configuration, nothing reported.
    pub open spec fn initial() -> EscrowView {
        EscrowView {
            program: None,
            nonces: Map::empty(),
            monitor: MonitorState::initial(ThresholdConfig::spec_default()),
            events: Seq::empty(),
        }
    }

    /// The invariant of the state: the books, if there are any, are sound.
    pub open spec fn wf(self) -> bool {
        match self.program {
            Some(program) => program.wf(),
            None => true,
        }
    }

    /// Creating the escrow. It fails if the escrow already exists;
    /// otherwise a zero-balance ledger is set up and reported.
    pub open spec fn init_program(self, program_id: String, authorized_payout_key: Address) -> (
        EscrowView,
        Result<ProgramView, EscrowError>,
    ) {
        match self.program {
            Some(_) => (self, Err(EscrowError::AlreadyInitialized)),
            None => {
                let created = ProgramView::created(program_id, authorized_payout_key);
                (
                    EscrowView {
                        program: Some(created),
                        events: self.events.push(
                            ContractEvent::ProgramInitialized {
                                program_id,
                                authorized_payout_key,
                                total_funds: 0,
                            },
                        ),
                        ..self
                    },
                    Ok(created),
                )
            },
        }
    }

    /// Locking funds. An amount that is not positive is refused before
    /// anything else is looked at. Locking is a deposit: no nonce is
    /// involved and the circuit breaker is not asked.
    pub open spec fn lock_program_funds(self, amount: i128) -> (
        EscrowView,
        Result<ProgramView, EscrowError>,
    ) {
        if amount <= 0 {
            (self, Err(EscrowError::InvalidAmount))
        } else {
            match self.program {
                None => (self, Err(EscrowError::NotInitialized)),
                Some(program) => match program.lock_outcome(amount) {
                    Err(error) => (self, Err(error)),
                    Ok(()) => {
                        let locked = program.locked(amount);
                        (
                            EscrowView {
                                program: Some(locked),
                                events: self.events.push(
                                    ContractEvent::FundsLocked {
                                        program_id: program.program_id,
                                        amount,
                                        remaining_balance: locked.remaining_balance,
                                    },
                                ),
                                ..self
                            },
                            Ok(locked),
                        )
                    },
                },
            }
        }
    }

    /// One payout of `amount` to `recipient`, authorized with `nonce`, at
    /// time `now`.
    ///
    /// 1. Without books the call fails with `NotInitialized`.
    /// 2. A nonce that is not the authorized signer's current one fails
    ///    with `InvalidNonce`, and nothing changes. From here on the nonce
    ///    is consumed, whatever happens.
    /// 3. The circuit breaker may refuse; a breach it records is reported.
    /// 4. The ledger may refuse with `InvalidAmount` or
    ///    `InsufficientBalance`; the failure is reported to the circuit
    ///    breaker, which may trip.
    /// 5. Otherwise the payout is booked, the success and its outflow are
    ///    reported to the circuit breaker, which may trip, and the payout
    ///    is reported.
    pub open spec fn single_payout(
        self,
        recipient: Address,
        amount: i128,
        nonce: u64,
        now: u64,
    ) -> (EscrowView, Result<ProgramView, EscrowError>) {
        match self.program {
            None => (self, Err(EscrowError::NotInitialized)),
            Some(program) => {
                let signer = program.authorized_payout_key;
                if !nonce_accepted(self.nonces, signer, nonce) {
                    (
                        self,
                        Err(
                            EscrowError::InvalidNonce {
                                expected: nonce_of(self.nonces, signer),
                                got: nonce,
                            },
                        ),
                    )
                } else {
                    let nonces = nonce_step(self.nonces, signer, nonce);
                    let (admitted, decision) = self.monitor.single_admission(amount, now);
                    match decision {
                        Err(refusal) => (
                            EscrowView {
                                nonces,
                                monitor: admitted,
                                events: self.events + breach_event(refusal.breach),
                                ..self
                            },
                            Err(refusal.error),
                        ),
                        Ok(()) => match program.payout_outcome(amount) {
                            Err(error) => {
                                let (monitor, breach) = admitted.recorded(false, amount, now);
                                (
                                    EscrowView {
                                        nonces,
                                        monitor,
                                        events: self.events + breach_event(breach),
                                        ..self
                                    },
                                    Err(error),
                                )
                            },
                            Ok(()) => {
                                let paid = program.paid(recipient, amount, now);
                                let (monitor, breach) = admitted.recorded(true, amount, now);
                                (
                                    EscrowView {
                                        program: Some(paid),
                                        nonces,
                                        monitor,
                                        events: (self.events + breach_event(breach)).push(
                                            ContractEvent::Payout {
                                                program_id: program.program_id,
                                                recipient,
                                                amount,
                                                remaining_balance: paid.remaining_balance,
                                            },
                                        ),
                                    },
                                    Ok(paid),
                                )
                            },
                        },
                    }
                }
            },
        }
    }

    /// A batch of payouts, authorized with one `nonce`, at time `now`.
    ///
    /// The stations are those of a single payout. The circuit breaker
    /// judges the batch by its first line item above the cap. The ledger
    /// pays the whole batch or nothing. A paid batch is reported to the
    /// circuit breaker line item by line item, so that a single batch can
    /// trip it, and to the outside as one fact.
    pub open spec fn batch_payout(
        self,
        recipients: Seq<Address>,
        amounts: Seq<i128>,
        nonce: u64,
        now: u64,
    ) -> (EscrowView, Result<ProgramView, EscrowError>) {
        match self.program {
            None => (self, Err(EscrowError::NotInitialized)),
            Some(program) => {
                let signer = program.authorized_payout_key;
                if !nonce_accepted(self.nonces, signer, nonce) {
                    (
                        self,
                        Err(
                            EscrowError::InvalidNonce {
                                expected: nonce_of(self.nonces, signer),
                                got: nonce,
                            },
                        ),
                    )
                } else {
                    let nonces = nonce_step(self.nonces, signer, nonce);
                    let (admitted, decision) = self.monitor.batch_admission(amounts, now);
                    match decision {
                        Err(refusal) => (
                            EscrowView {
                                nonces,
                                monitor: admitted,
                                events: self.events + breach_event(refusal.breach),
                                ..self
                            },
                            Err(refusal.error),
                        ),
                        Ok(()) => match program.batch_outcome(recipients, amounts) {
                            Err(error) => {
                                let (monitor, breach) = admitted.recorded(false, 0, now);
                                (
                                    EscrowView {
                                        nonces,
                                        monitor,
                                        events: self.events + breach_event(breach),
                                        ..self
                                    },
                                    Err(error),
                                )
                            },
                            Ok(()) => {
                                let paid = program.batch_paid(recipients, amounts, now);
                                let (monitor, breaches) = admitted.recorded_all(amounts, now);
                                (
                                    EscrowView {
                                        program: Some(paid),
                                        nonces,
                                        monitor,
                                        events: (self.events + breach_events(breaches)).push(
                                            ContractEvent::BatchPayout {
                                                program_id: program.program_id,
                                                line_items: amounts.len() as u64,
                                                total_amount: total_of(amounts) as i128,
                                                remaining_balance: paid.remaining_balance,
                                            },
                                        ),
                                    },
                                    Ok(paid),
                                )
                            },
                        },
                    }
                }
            },
        }
    }

    /// Putting a threshold configuration in force. An invalid configuration
    /// is rejected as a whole and nothing changes.
    pub open spec fn configure_thresholds(self, config: ThresholdConfig) -> (
        EscrowView,
        Result<(), EscrowError>,
    ) {
        match config.fault() {
            Some(reason) => (self, Err(EscrowError::InvalidThresholdConfig { reason })),
            None => (EscrowView { monitor: self.monitor.with_config(config), ..self }, Ok(())),
        }
    }
}

/// A program escrow: the ledger, the nonce counters, the circuit breaker and
/// the log of reported facts.
pub struct ProgramEscrowContract {
    ledger: Option<EscrowLedger>,
    nonces: NonceRegistry,
    monitor: ThresholdMonitor,
    events: Vec<ContractEvent>,
}

impl View for ProgramEscrowContract {
    type V = EscrowView;

    closed spec fn view(&self) -> EscrowView {
        EscrowView {
            program: match self.ledger {
                Some(ledger) => Some(ledger@),
                None => None,
            },
            nonces: self.nonces@,
            monitor: self.monitor@,
            events: self.events@,
        }
    }
}

impl ProgramEscrowContract {
    /// An escrow that has not been created yet.
    pub fn new() -> (contract: ProgramEscrowContract)
        ensures
            contract@ == EscrowView::initial(),
    {
        ProgramEscrowContract {
            ledger: None,
            nonces: NonceRegistry::new(),
            monitor: ThresholdMonitor::with_default_config(),
            events: Vec::new(),
        }
    }

    /// An escrow that continues from parts kept earlier, with nothing
    /// reported yet.
    pub fn restore(
        ledger: Option<EscrowLedger>,
        nonces: NonceRegistry,
        monitor: ThresholdMonitor,
    ) -> (contract: ProgramEscrowContract)
        ensures
            contract@ == (EscrowView {
                program: match ledger {
                    Some(l) => Some(l@),
                    None => None,
                },
                nonces: nonces@,
                monitor: monitor@,
                events: Seq::empty(),
            }),
            contract@.wf(),
    {
        let contract = ProgramEscrowContract { ledger, nonces, monitor, events: Vec::new() };
        contract.recall_invariant();
        contract
    }

    /// Brings the invariant of the books into the proof context. Nothing
    /// happens when this runs.
    fn recall_invariant(&self)
        ensures
            self@.wf(),
    {
        match &self.ledger {
            Some(ledger) => {
                proof {
                    use_type_invariant(ledger);
                }
            },
            None => {},
        }
    }

    /// Initialize a new program escrow.
    ///
    /// Fails with `AlreadyInitialized` if the escrow exists. Otherwise a
    /// zero-balance ledger for `program_id` is created, with
    /// `authorized_payout_key` as the identity that may authorize payouts.
    pub fn init_program(&mut self, program_id: String, authorized_payout_key: Address) -> (outcome:
        Result<ProgramData, EscrowError>)
        ensures
            final(self)@ == old(self)@.init_program(program_id, authorized_payout_key).0,
            seen(outcome) == old(self)@.init_program(program_id, authorized_payout_key).1,
            final(self)@.wf(),
    {
        self.recall_invariant();
        if self.ledger.is_some() {
            return Err(EscrowError::AlreadyInitialized);
        }
        let ledger = EscrowLedger::new(program_id.clone(), authorized_payout_key);
        let data = ledger.snapshot();
        self.ledger = Some(ledger);
        self.events.push(
            ContractEvent::ProgramInitialized { program_id, authorized_payout_key, total_funds: 0 },
        );
        Ok(data)
    }

    /// Lock funds into the program escrow.
    ///
    /// Fails with `InvalidAmount` if `amount` is not positive, with
    /// `NotInitialized` if the escrow does not exist, and with
    /// `InvalidAmount` if the total would no longer be representable.
    /// Otherwise the total and the remaining balance grow by `amount`.
    pub fn lock_program_funds(&mut self, amount: i128) -> (outcome: Result<
        ProgramData,
        EscrowError,
    >)
        ensures
            final(self)@ == old(self)@.lock_program_funds(amount).0,
            seen(outcome) == old(self)@.lock_program_funds(amount).1,
            final(self)@.wf(),
    {
        self.recall_invariant();
        if amount <= 0 {
            return Err(EscrowError::InvalidAmount);
        }
        match &mut self.ledger {
            None => Err(EscrowError::NotInitialized),
            Some(ledger) => match ledger.lock_funds(amount) {
                Err(error) => Err(error),
                Ok(()) => {
                    let data = ledger.snapshot();
                    self.events.push(
                        ContractEvent::FundsLocked {
                            program_id: ledger.program_id(),
                            amount,
                            remaining_balance: data.remaining_balance,
                        },
                    );
                    Ok(data)
                },
            },
        }
    }

    /// Execute a single payout to one recipient with nonce-based replay
    /// protection.
    ///
    /// The caller must have authenticated the authorized payout key. What
    /// happens is what [`EscrowView::single_payout`] says, station by
    /// station; on success the updated books are returned.
    pub fn single_payout(
        &mut self,
        recipient: Address,
        amount: i128,
        nonce: u64,
        now: u64,
    ) -> (outcome: Result<ProgramData, EscrowError>)
        ensures
            final(self)@ == old(self)@.single_payout(recipient, amount, nonce, now).0,
            seen(outcome) == old(self)@.single_payout(recipient, amount, nonce, now).1,
            final(self)@.wf(),
    {
        self.recall_invariant();
        let signer: Address = match &self.ledger {
            None => {
                return Err(EscrowError::NotInitialized);
            },
            Some(ledger) => ledger.authorized_payout_key(),
        };
        match validate_and_increment_nonce(&mut self.nonces, &signer, nonce) {
            Err(error) => {
                return Err(error);
            },
            Ok(()) => {},
        }
        match self.monitor.check_admission(amount, now) {
            Err(refusal) => {
                log_breach(&mut self.events, refusal.breach);
                return Err(refusal.error);
            },
            Ok(()) => {},
        }
        let booked: Result<(), EscrowError> = match &mut self.ledger {
            Some(ledger) => ledger.pay(recipient, amount, now),
            None => Err(EscrowError::NotInitialized),
        };
        match booked {
            Err(error) => {
                let breach = self.monitor.record_outcome(false, amount, now);
                log_breach(&mut self.events, breach);
                Err(error)
            },
            Ok(()) => {
                let breach = self.monitor.record_outcome(true, amount, now);
                log_breach(&mut self.events, breach);
                match &self.ledger {
                    Some(ledger) => {
                        let data = ledger.snapshot();
                        self.events.push(
                            ContractEvent::Payout {
                                program_id: ledger.program_id(),
                                recipient,
                                amount,
                                remaining_balance: data.remaining_balance,
                            },
                        );
                        Ok(data)
                    },
                    None => Err(EscrowError::NotInitialized),
                }
            },
        }
    }

    /// Execute a batch of payouts under one nonce.
    ///
    /// The caller must have authenticated the authorized payout key. What
    /// happens is what [`EscrowView::batch_payout`] says: the batch
    /// consumes one nonce, and either every line item is booked or none.
    pub fn batch_payout(
        &mut self,
        recipients: Vec<Address>,
        amounts: Vec<i128>,
        nonce: u64,
        now: u64,
    ) -> (outcome: Result<ProgramData, EscrowError>)
        ensures
            final(self)@ == old(self)@.batch_payout(recipients@, amounts@, nonce, now).0,
            seen(outcome) == old(self)@.batch_payout(recipients@, amounts@, nonce, now).1,
            final(self)@.wf(),
    {
        self.recall_invariant();
        let signer: Address = match &self.ledger {
            None => {
                return Err(EscrowError::NotInitialized);
            },
            Some(ledger) => ledger.authorized_payout_key(),
        };
        match validate_and_increment_nonce(&mut self.nonces, &signer, nonce) {
            Err(error) => {
                return Err(error);
            },
            Ok(()) => {},
        }
        match self.monitor.check_batch_admission(&amounts, now) {
            Err(refusal) => {
                log_breach(&mut self.events, refusal.breach);
                return Err(refusal.error);
            },
            Ok(()) => {},
        }
        let booked: Result<i128, EscrowError> = match &mut self.ledger {
            Some(ledger) => ledger.pay_batch(&recipients, &amounts, now),
            None => Err(EscrowError::NotInitialized),
        };
        match booked {
            Err(error) => {
                let breach = self.monitor.record_outcome(false, 0, now);
                log_breach(&mut self.events, breach);
                Err(error)
            },
            Ok(total) => {
                let breaches = self.monitor.record_payouts(&amounts, now);
                log_breaches(&mut self.events, &breaches);
                match &self.ledger {
                    Some(ledger) => {
                        let data = ledger.snapshot();
                        self.events.push(
                            ContractEvent::BatchPayout {
                                program_id: ledger.program_id(),
                                line_items: amounts.len() as u64,
                                total_amount: total,
                                remaining_balance: data.remaining_balance,
                            },
                        );
                        Ok(data)
                    },
                    None => Err(EscrowError::NotInitialized),
                }
            },
        }
    }

    /// Get program information: a copy of the books, or `NotInitialized`.
    /// Nothing is changed.
    pub fn get_program_info(&self) -> (info: Result<ProgramData, EscrowError>)
        ensures
            seen(info) == (match self@.program {
                Some(program) => Ok::<ProgramView, EscrowError>(program),
                None => Err(EscrowError::NotInitialized),
            }),
            self@.wf(),
    {
        self.recall_invariant();
        match &self.ledger {
            Some(ledger) => Ok(ledger.snapshot()),
            None => Err(EscrowError::NotInitialized),
        }
    }

    /// Get remaining balance, or `NotInitialized`. The balance is never
    /// negative and never above the total. Nothing is changed.
    pub fn get_remaining_balance(&self) -> (balance: Result<i128, EscrowError>)
        ensures
            balance == (match self@.program {
                Some(program) => Ok::<i128, EscrowError>(program.remaining_balance),
                None => Err(EscrowError::NotInitialized),
            }),
            balance matches Ok(b) ==> 0 <= b <= self@.program->0.total_funds,
    {
        match &self.ledger {
            Some(ledger) => Ok(ledger.remaining_balance()),
            None => Err(EscrowError::NotInitialized),
        }
    }

    /// Get current nonce for a signer: zero for a signer that has never
    /// transacted. Nothing is changed.
    pub fn get_nonce(&self, signer: Address) -> (nonce: u64)
        ensures
            nonce == nonce_of(self@.nonces, signer),
    {
        get_nonce(&self.nonces, &signer)
    }

    /// Puts a threshold configuration in force. An invalid configuration
    /// is rejected with `InvalidThresholdConfig` and the one in force stays.
    pub fn configure_thresholds(&mut self, config: ThresholdConfig) -> (done: Result<
        (),
        EscrowError,
    >)
        ensures
            final(self)@ == old(self)@.configure_thresholds(config).0,
            done == old(self)@.configure_thresholds(config).1,
            done is Ok <==> config.is_valid(),
    {
        self.monitor.configure(config)
    }

    /// The metrics of the window that is being filled.
    pub fn get_window_metrics(&self) -> (metrics: WindowMetrics)
        ensures
            metrics == self@.monitor.current,
    {
        self.monitor.get_window_metrics()
    }

    /// Everything the circuit breaker keeps.
    pub fn get_monitor_state(&self) -> (state: MonitorState)
        ensures
            state == self@.monitor,
    {
        self.monitor.state()
    }

    /// Hands out the facts reported since the log was last taken, oldest
    /// first, and empties the log.
    pub fn take_events(&mut self) -> (events: Vec<ContractEvent>)
        ensures
            events@ == old(self)@.events,
            final(self)@ == (EscrowView { events: Seq::empty(), ..old(self)@ }),
    {
        let mut events: Vec<ContractEvent> = Vec::new();
        std::mem::swap(&mut events, &mut self.events);
        events
    }
}

/// One call to a program escrow, with its arguments.
pub enum EscrowCall {
    InitProgram { program_id: String, authorized_payout_key: Address },
    LockProgramFunds { amount: i128 },
    SinglePayout { recipient: Address, amount: i128, nonce: u64, now: u64 },
    BatchPayout { recipients: Seq<Address>, amounts: Seq<i128>, nonce: u64, now: u64 },
    ConfigureThresholds { config: ThresholdConfig },
}

impl EscrowCall {
    /// Whether the call moves funds under the nonce `nonce`.
    pub open spec fn moves_funds_under(self, nonce: u64) -> bool {
        match self {
            EscrowCall::SinglePayout { nonce: n, .. } => n == nonce,
            EscrowCall::BatchPayout { nonce: n, .. } => n == nonce,
            _ => false,
        }
    }
}

impl EscrowView {
    /// The state after `call`.
    pub open spec fn after(self, call: EscrowCall) -> EscrowView {
        match call {
            EscrowCall::InitProgram { program_id, authorized_payout_key } => self.init_program(
                program_id,
                authorized_payout_key,
            ).0,
            EscrowCall::LockProgramFunds { amount } => self.lock_program_funds(amount).0,
            EscrowCall::SinglePayout { recipient, amount, nonce, now } => self.single_payout(
                recipient,
                amount,
                nonce,
                now,
            ).0,
            EscrowCall::BatchPayout { recipients, amounts, nonce, now } => self.batch_payout(
                recipients,
                amounts,
                nonce,
                now,
            ).0,
            EscrowCall::ConfigureThresholds { config } => self.configure_thresholds(config).0,
        }
    }

    /// The state after the calls of `calls`, made in order.
    pub open spec fn after_all(self, calls: Seq<EscrowCall>) -> EscrowView
        decreases calls.len(),
    {
        if calls.len() == 0 {
            self
        } else {
            self.after_all(calls.drop_last()).after(calls.last())
        }
    }
}

/// No call breaks the books: if the remaining balance was between zero and
/// the total before the call, it is so after it.
pub proof fn lemma_call_keeps_books_sound(state: EscrowView, call: EscrowCall)
    requires
        state.wf(),
    ensures
        state.after(call).wf(),
{
    match call {
        EscrowCall::BatchPayout { recipients, amounts, nonce, now } => {
            if state.program is Some {
                let program = state.program->0;
                if program.batch_outcome(recipients, amounts) is Ok {
                    lemma_total_is_not_negative(amounts);
                    let paid = program.batch_paid(recipients, amounts, now);
                    assert(all_paid_positive(paid.payout_history)) by {
                        let records = batch_records(recipients, amounts, now);
                        assert forall|k: int| 0 <= k < paid.payout_history.len() implies (
                        #[trigger] paid.payout_history[k]).amount > 0 by {
                            if k < program.payout_history.len() {
                                assert(paid.payout_history[k] == program.payout_history[k]);
                            } else {
                                assert(paid.payout_history[k] == records[k
                                    - program.payout_history.len()]);
                            }
                        }
                    }
                }
            }
        },
        EscrowCall::SinglePayout { recipient, amount, nonce, now } => {
            if state.program is Some {
                let program = state.program->0;
                if program.payout_outcome(amount) is Ok {
                    let paid = program.paid(recipient, amount, now);
                    assert forall|k: int| 0 <= k < paid.payout_history.len() implies (
                    #[trigger] paid.payout_history[k]).amount > 0 by {
                        if k < program.payout_history.len() {
                            assert(paid.payout_history[k] == program.payout_history[k]);
                        }
                    }
                }
            }
        },
        _ => {},
    }
}

/// For any sequence of calls from the very beginning, the remaining balance
/// never goes negative and never exceeds the total funds.
pub proof fn lemma_balance_stays_within_bounds(calls: Seq<EscrowCall>)
    ensures
        EscrowView::initial().after_all(calls).wf(),
        EscrowView::initial().after_all(calls).program matches Some(program) ==> 0
            <= program.remaining_balance <= program.total_funds,
    decreases calls.len(),
{
    if calls.len() > 0 {
        lemma_balance_stays_within_bounds(calls.drop_last());
        lemma_call_keeps_books_sound(
            EscrowView::initial().after_all(calls.drop_last()),
            calls.last(),
        );
    }
}

/// No call removes the escrow, renames it, replaces its authorized signer,
/// lowers its total funds or rewrites its payout history.
pub proof fn lemma_call_only_grows_books(state: EscrowView, call: EscrowCall)
    requires
        state.program is Some,
    ensures
        state.after(call).program matches Some(later) && {
            let program = state.program->0;
            &&& later.program_id == program.program_id
            &&& later.authorized_payout_key == program.authorized_payout_key
            &&& later.total_funds >= program.total_funds
            &&& program.payout_history.is_prefix_of(later.payout_history)
        },
{
}

/// The books only grow. Once the escrow exists it stays, under the same
/// identifier and with the same authorized signer; the total funds never
/// shrink; and the payout history is only ever appended to.
pub proof fn lemma_books_only_grow(state: EscrowView, calls: Seq<EscrowCall>)
    requires
        state.program is Some,
    ensures
        state.after_all(calls).program matches Some(later) && {
            let program = state.program->0;
            &&& later.program_id == program.program_id
            &&& later.authorized_payout_key == program.authorized_payout_key
            &&& later.total_funds >= program.total_funds
            &&& program.payout_history.is_prefix_of(later.payout_history)
        },
    decreases calls.len(),
{
    if calls.len() > 0 {
        lemma_books_only_grow(state, calls.drop_last());
        lemma_call_only_grows_books(state.after_all(calls.drop_last()), calls.last());
    }
}

/// Single and batch payouts draw on one and the same counter of the
/// authorized signer. A call of either kind whose nonce is accepted advances
/// that counter by exactly one, whether or not the call then succeeds. A
/// call whose nonce is not the current one is refused with `InvalidNonce`
/// before the circuit breaker or the balance is looked at, whatever else it
/// asks for, and changes nothing.
pub proof fn lemma_fund_moving_calls_share_one_counter(
    state: EscrowView,
    call: EscrowCall,
    nonce: u64,
)
    requires
        state.program is Some,
        call.moves_funds_under(nonce),
    ensures
        ({
            let signer = state.program->0.authorized_payout_key;
            &&& nonce_accepted(state.nonces, signer, nonce) ==> {
                &&& state.after(call).nonces == nonce_step(state.nonces, signer, nonce)
                &&& nonce_of(state.after(call).nonces, signer) == nonce + 1
            }
            &&& !nonce_accepted(state.nonces, signer, nonce) ==> state.after(call) == state
        }),
        match call {
            EscrowCall::SinglePayout { recipient, amount, nonce, now } => !nonce_accepted(
                state.nonces,
                state.program->0.authorized_payout_key,
                nonce,
            ) ==> state.single_payout(recipient, amount, nonce, now).1 == Err::<
                ProgramView,
                EscrowError,
            >(
                EscrowError::InvalidNonce {
                    expected: nonce_of(state.nonces, state.program->0.authorized_payout_key),
                    got: nonce,
                },
            ),
            EscrowCall::BatchPayout { recipients, amounts, nonce, now } => !nonce_accepted(
                state.nonces,
                state.program->0.authorized_payout_key,
                nonce,
            ) ==> state.batch_payout(recipients, amounts, nonce, now).1 == Err::<
                ProgramView,
                EscrowError,
            >(
                EscrowError::InvalidNonce {
                    expected: nonce_of(state.nonces, state.program->0.authorized_payout_key),
                    got: nonce,
                },
            ),
            _ => true,
        },
{
}

/// No call ever lowers a nonce, and no call changes the nonce of anyone but
/// the authorized signer.
pub proof fn lemma_call_keeps_nonces(state: EscrowView, call: EscrowCall, signer: Address)
    ensures
        nonce_of(state.after(call).nonces, signer) >= nonce_of(state.nonces, signer),
        nonce_of(state.after(call).nonces, signer) <= nonce_of(state.nonces, signer) + 1,
        !(state.program matches Some(program) && program.authorized_payout_key == signer)
            ==> nonce_of(state.after(call).nonces, signer) == nonce_of(state.nonces, signer),
{
}

/// Over any sequence of calls a nonce never decreases.
pub proof fn lemma_nonces_never_decrease_across_calls(
    state: EscrowView,
    calls: Seq<EscrowCall>,
    signer: Address,
)
    ensures
        nonce_of(state.after_all(calls).nonces, signer) >= nonce_of(state.nonces, signer),
    decreases calls.len(),
{
    if calls.len() > 0 {
        lemma_nonces_never_decrease_across_calls(state, calls.drop_last(), signer);
        lemma_call_keeps_nonces(state.after_all(calls.drop_last()), calls.last(), signer);
    }
}

/// Replaying a nonce that a fund-moving call has consumed always fails with
/// `InvalidNonce` and changes nothing: whichever calls were made in between,
/// whether the replay is a single or a batch payout, and even if it asks for
/// something that would otherwise succeed.
pub proof fn lemma_replayed_call_is_rejected(
    state: EscrowView,
    first: EscrowCall,
    between: Seq<EscrowCall>,
    replay: EscrowCall,
    nonce: u64,
)
    requires
        state.program is Some,
        nonce_accepted(state.nonces, state.program->0.authorized_payout_key, nonce),
        first.moves_funds_under(nonce),
        replay.moves_funds_under(nonce),
    ensures
        ({
            let later = state.after(first).after_all(between);
            let signer = state.program->0.authorized_payout_key;
            &&& nonce_of(later.nonces, signer) > nonce
            &&& later.after(replay) == later
            &&& match replay {
                EscrowCall::SinglePayout { recipient, amount, nonce, now } => later.single_payout(
                    recipient,
                    amount,
                    nonce,
                    now,
                ).1 == Err::<ProgramView, EscrowError>(
                    EscrowError::InvalidNonce {
                        expected: nonce_of(later.nonces, signer),
                        got: nonce,
                    },
                ),
                EscrowCall::BatchPayout { recipients, amounts, nonce, now } => later.batch_payout(
                    recipients,
                    amounts,
                    nonce,
                    now,
                ).1 == Err::<ProgramView, EscrowError>(
                    EscrowError::InvalidNonce {
                        expected: nonce_of(later.nonces, signer),
                        got: nonce,
                    },
                ),
                _ => true,
            }
        }),
{
    let signer = state.program->0.authorized_payout_key;
    let consumed = state.after(first);
    lemma_fund_moving_calls_share_one_counter(state, first, nonce);
    lemma_call_only_grows_books(state, first);
    lemma_books_only_grow(consumed, between);
    lemma_nonces_never_decrease_across_calls(consumed, between, signer);
    let later = consumed.after_all(between);
    lemma_fund_moving_calls_share_one_counter(later, replay, nonce);
}

/// A batch is paid as a whole or not at all, and it moves the nonce and the
/// balance once, not once per line item.
///
/// If the batch succeeds, the authorized signer's nonce has advanced by one,
/// the balance has shrunk by the sum of the batch, and the history has grown
/// by one record per line item, in order. If it fails, the books are exactly
/// what they were, and the nonce has advanced by at most one.
pub proof fn lemma_batch_is_all_or_nothing(
    state: EscrowView,
    recipients: Seq<Address>,
    amounts: Seq<i128>,
    nonce: u64,
    now: u64,
)
    requires
        state.program is Some,
    ensures
        ({
            let program = state.program->0;
            let signer = program.authorized_payout_key;
            let (after, outcome) = state.batch_payout(recipients, amounts, nonce, now);
            &&& outcome is Ok ==> {
                &&& recipients.len() == amounts.len()
                &&& after.program matches Some(paid)
                &&& outcome == Ok::<ProgramView, EscrowError>(paid)
                &&& paid.remaining_balance == program.remaining_balance - total_of(amounts)
                &&& paid.total_funds == program.total_funds
                &&& paid.payout_history == program.payout_history + batch_records(
                    recipients,
                    amounts,
                    now,
                )
                &&& nonce_of(after.nonces, signer) == nonce_of(state.nonces, signer) + 1
            }
            &&& outcome is Err ==> {
                &&& after.program == state.program
                &&& nonce_of(after.nonces, signer) <= nonce_of(state.nonces, signer) + 1
            }
        }),
{
    if state.program->0.batch_outcome(recipients, amounts) is Ok {
        lemma_total_is_not_negative(amounts);
    }
}

/// Whether the books account for every unit: what was locked is what is
/// left plus what was paid out.
pub open spec fn funds_conserved(state: EscrowView) -> bool {
    state.program matches Some(program) ==> program.total_funds == program.remaining_balance
        + paid_total(program.payout_history)
}

/// No call loses or invents funds.
pub proof fn lemma_call_conserves_funds(state: EscrowView, call: EscrowCall)
    requires
        state.wf(),
        funds_conserved(state),
    ensures
        funds_conserved(state.after(call)),
{
    match call {
        EscrowCall::InitProgram { program_id, authorized_payout_key } => {
            assert(paid_total(Seq::<PayoutRecord>::empty()) == 0);
        },
        EscrowCall::LockProgramFunds { amount } => {},
        EscrowCall::ConfigureThresholds { config } => {},
        EscrowCall::SinglePayout { recipient, amount, nonce, now } => {
            if state.program is Some {
                let program = state.program->0;
                let paid = program.paid(recipient, amount, now);
                if program.payout_outcome(amount) is Ok {
                    assert(paid.payout_history.drop_last() =~= program.payout_history);
                }
            }
        },
        EscrowCall::BatchPayout { recipients, amounts, nonce, now } => {
            if state.program is Some {
                let program = state.program->0;
                if program.batch_outcome(recipients, amounts) is Ok {
                    lemma_total_is_not_negative(amounts);
                    lemma_batch_adds_its_total(program.payout_history, recipients, amounts, now);
                }
            }
        },
    }
}

/// For any sequence of calls from the very beginning, the total funds are
/// the remaining balance plus the sum of all payouts on record.
pub proof fn lemma_funds_are_conserved(calls: Seq<EscrowCall>)
    ensures
        funds_conserved(EscrowView::initial().after_all(calls)),
    decreases calls.len(),
{
    if calls.len() > 0 {
        lemma_funds_are_conserved(calls.drop_last());
        lemma_balance_stays_within_bounds(calls.drop_last());
        lemma_call_conserves_funds(
            EscrowView::initial().after_all(calls.drop_last()),
            calls.last(),
        );
    }
}

/// A single payout succeeds exactly when the escrow exists, the nonce is
/// the authorized signer's current one, the breaker is closed after the
/// window was rolled, and the amount is positive, within the cap and within
/// the remaining balance. It then books exactly this one payout: the
/// balance shrinks by the amount and one record is appended. A payout that
/// fails leaves the books exactly as they were.
pub proof fn lemma_single_payout_books_once(
    state: EscrowView,
    recipient: Address,
    amount: i128,
    nonce: u64,
    now: u64,
)
    ensures
        ({
            let (after, outcome) = state.single_payout(recipient, amount, nonce, now);
            &&& outcome is Ok <==> {
                &&& state.program matches Some(program)
                &&& nonce_accepted(state.nonces, program.authorized_payout_key, nonce)
                &&& !state.monitor.rolled(now).cooling(now)
                &&& 0 < amount <= state.monitor.config.max_single_payout
                &&& amount <= program.remaining_balance
            }
            &&& outcome is Ok ==> {
                &&& after.program matches Some(paid)
                &&& outcome == Ok::<ProgramView, EscrowError>(paid)
                &&& paid.remaining_balance == state.program->0.remaining_balance - amount
                &&& paid.total_funds == state.program->0.total_funds
                &&& paid.payout_history == state.program->0.payout_history.push(
                    PayoutRecord { recipient, amount, timestamp: now },
                )
            }
            &&& outcome is Err ==> after.program == state.program
        }),
{
}

/// A batch succeeds exactly when the escrow exists, the nonce is the
/// authorized signer's current one, the breaker is closed after the window
/// was rolled, there is one amount per recipient, every amount is positive
/// and within the cap, and the sum is within the remaining balance.
pub proof fn lemma_batch_succeeds_exactly_when(
    state: EscrowView,
    recipients: Seq<Address>,
    amounts: Seq<i128>,
    nonce: u64,
    now: u64,
)
    ensures
        state.batch_payout(recipients, amounts, nonce, now).1 is Ok <==> {
            &&& state.program matches Some(program)
            &&& nonce_accepted(state.nonces, program.authorized_payout_key, nonce)
            &&& !state.monitor.rolled(now).cooling(now)
            &&& recipients.len() == amounts.len()
            &&& forall|i: int|
                0 <= i < amounts.len() ==> 0 < #[trigger] amounts[i]
                    <= state.monitor.config.max_single_payout
            &&& total_of(amounts) <= program.remaining_balance
        },
{
    lemma_first_over_cap(amounts, state.monitor.config.max_single_payout);
}

/// Calls roll the window only at or after its expiry. A call that is made
/// before the current window has lasted its full length, and any call that
/// moves no funds, leaves the previous window as it was; a fund-moving call
/// that gets past the nonce at or after expiry makes the window that was
/// current the previous one.
pub proof fn lemma_calls_roll_the_window_only_at_expiry(state: EscrowView, call: EscrowCall)
    ensures
        ({
            let after = state.after(call);
            let rolls = match call {
                EscrowCall::SinglePayout { nonce, now, .. } => state.program is Some
                    && nonce_accepted(
                    state.nonces,
                    state.program->0.authorized_payout_key,
                    nonce,
                ) && state.monitor.window_expired(now),
                EscrowCall::BatchPayout { nonce, now, .. } => state.program is Some
                    && nonce_accepted(
                    state.nonces,
                    state.program->0.authorized_payout_key,
                    nonce,
                ) && state.monitor.window_expired(now),
                _ => false,
            };
            &&& !rolls ==> after.monitor.previous == state.monitor.previous
                && after.monitor.current.window_start == state.monitor.current.window_start
            &&& rolls ==> after.monitor.previous == state.monitor.current
        }),
{
    match call {
        EscrowCall::BatchPayout { recipients, amounts, nonce, now } => {
            let admitted = state.monitor.batch_admission(amounts, now).0;
            lemma_batch_report_keeps_window(admitted, amounts, now);
        },
        _ => {},
    }
}

/// The circuit breaker is asked before the ledger. Once the nonce has been
/// accepted, an open breaker refuses a payout with `CooldownActive`, and a
/// closed one refuses an amount above the cap with `ThresholdBreached`,
/// whether or not the amount is positive or covered by the balance; the
/// books stay as they were.
pub proof fn lemma_breaker_is_asked_before_the_ledger(
    state: EscrowView,
    recipient: Address,
    amount: i128,
    nonce: u64,
    now: u64,
)
    requires
        state.program is Some,
        nonce_accepted(state.nonces, state.program->0.authorized_payout_key, nonce),
    ensures
        ({
            let (after, outcome) = state.single_payout(recipient, amount, nonce, now);
            let cap = state.monitor.config.max_single_payout;
            &&& now < state.monitor.last_cooldown_end ==> outcome == Err::<
                ProgramView,
                EscrowError,
            >(EscrowError::CooldownActive { until: state.monitor.last_cooldown_end })
                && after.program == state.program
            &&& now >= state.monitor.last_cooldown_end && amount > cap ==> outcome == Err::<
                ProgramView,
                EscrowError,
            >(
                EscrowError::ThresholdBreached {
                    metric: BreachMetric::SinglePayout,
                    threshold: cap,
                    actual: amount,
                },
            ) && after.program == state.program && after.monitor.current.breach_count == bump(
                state.monitor.rolled(now).current.breach_count,
            )
        }),
{
}

} // verus!
