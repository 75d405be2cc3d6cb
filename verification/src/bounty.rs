//! The bounty escrow: funds locked in buckets, each released as a whole.
//!
//! A bucket is opened by locking an amount under a bounty id and is paid
//! out once, in full, when the administrator releases it. Releasing runs
//! through the same stations as a payout from a program escrow: the
//! administrator's nonce first, then the circuit breaker, and only then
//! the state of the bucket. As with a program escrow, the caller
//! authenticates the administrator before a release and moves the value
//! after a successful one; if the value cannot be moved, the caller drops
//! the updated escrow and continues from the parts it had kept.

use crate::address::Address;
use crate::error::EscrowError;
use crate::events::{breach_event, log_breach, ContractEvent};
use crate::nonce::{
    get_nonce, nonce_accepted, nonce_of, nonce_step, validate_and_increment_nonce, NonceRegistry,
};
use crate::threshold_monitor::{MonitorState, ThresholdConfig, ThresholdMonitor, WindowMetrics};
use std::collections::HashMap;
use vstd::prelude::*;
use vstd::std_specs::hash::group_hash_axioms;

verus! {

/// Whether the funds of a bucket are still held.
#[derive(Clone, Copy, Debug, PartialEq, Eq, Structural)]
pub enum EscrowStatus {
    /// The funds are held and can be released.
    Locked,
    /// The funds have been paid out.
    Released,
}

/// One bucket of locked funds.
#[derive(Clone, Copy, Debug, PartialEq, Eq, Structural)]
pub struct Escrow {
    /// Who locked the funds.
    pub depositor: Address,
    /// How much was locked.
    pub amount: i128,
    /// The deadline that was agreed when the funds were locked.
    pub deadline: u64,
    /// Whether the funds are still held.
    pub status: EscrowStatus,
}

/// The identities a bounty escrow is set up with.
#[derive(Clone, Copy, Debug, PartialEq, Eq, Structural)]
pub struct BountyParties {
    /// The identity that may release funds.
    pub admin: Address,
    /// The asset the escrow holds.
    pub token: Address,
}

/// Everything a bounty escrow keeps, as a mathematical value.
pub struct BountyView {
    /// The parties, once the escrow has been created.
    pub parties: Option<BountyParties>,
    /// The buckets by bounty id.
    pub escrows: Map<u64, Escrow>,
    /// The nonce counters.
    pub nonces: Map<Address, u64>,
    /// The circuit breaker.
    pub monitor: MonitorState,
    /// The facts reported so far, oldest first.
    pub events: Seq<ContractEvent>,
}

impl BountyView {
    /// The state before the escrow is created.
    pub open spec fn initial() -> BountyView {
        BountyView {
            parties: None,
            escrows: Map::empty(),
            nonces: Map::empty(),
            monitor: MonitorState::initial(ThresholdConfig::spec_default()),
            events: Seq::empty(),
        }
    }

    /// Creating the escrow. It fails if the escrow already exists.
    pub open spec fn init(self, admin: Address, token: Address) -> (
        BountyView,
        Result<(), EscrowError>,
    ) {
        match self.parties {
            Some(_) => (self, Err(EscrowError::AlreadyInitialized)),
            None => (
                BountyView {
                    parties: Some(BountyParties { admin, token }),
                    events: self.events.push(ContractEvent::BountyInitialized { admin, token }),
                    ..self
                },
                Ok(()),
            ),
        }
    }

    /// Locking `amount` into a new bucket under `bounty_id`.
    ///
    /// An amount that is not positive is refused before anything else is
    /// looked at. A bounty id that already has a bucket is refused with
    /// `InvalidStatus`. Locking is a deposit: no nonce is involved and the
    /// circuit breaker is not asked.
    pub open spec fn lock_funds(
        self,
        depositor: Address,
        bounty_id: u64,
        amount: i128,
        deadline: u64,
    ) -> (BountyView, Result<(), EscrowError>) {
        if amount <= 0 {
            (self, Err(EscrowError::InvalidAmount))
        } else if self.parties is None {
            (self, Err(EscrowError::NotInitialized))
        } else if self.escrows.contains_key(bounty_id) {
            (self, Err(EscrowError::InvalidStatus))
        } else {
            (
                BountyView {
                    escrows: self.escrows.insert(
                        bounty_id,
                        Escrow { depositor, amount, deadline, status: EscrowStatus::Locked },
                    ),
                    events: self.events.push(
                        ContractEvent::BountyFundsLocked { bounty_id, depositor, amount, deadline },
                    ),
                    ..self
                },
                Ok(()),
            )
        }
    }

    /// The amount a release of `bounty_id` asks for: what the bucket holds,
    /// or nothing if there is no such bucket.
    pub open spec fn requested(self, bounty_id: u64) -> i128 {
        if self.escrows.contains_key(bounty_id) {
            self.escrows[bounty_id].amount
        } else {
            0
        }
    }

    /// Whether the bucket of `bounty_id` exists and still holds its funds.
    pub open spec fn releasable(self, bounty_id: u64) -> bool {
        self.escrows.contains_key(bounty_id) && self.escrows[bounty_id].status
            == EscrowStatus::Locked
    }

    /// Releasing the bucket of `bounty_id` to `contributor`, authorized
    /// with `nonce`, at time `now`. On success the released amount is
    /// handed back.
    ///
    /// 1. Without parties the call fails with `NotInitialized`.
    /// 2. A nonce that is not the administrator's current one fails with
    ///    `InvalidNonce`, and nothing changes. From here on the nonce is
    ///    consumed, whatever happens.
    /// 3. The circuit breaker judges the amount the bucket holds and may
    ///    refuse; a breach it records is reported.
    /// 4. A bucket that does not exist or has been released fails with
    ///    `InvalidStatus`; the failure is reported to the circuit breaker.
    /// 5. Otherwise the bucket is marked released, the success and its
    ///    outflow are reported to the circuit breaker, and the release is
    ///    reported.
    pub open spec fn release_funds(
        self,
        bounty_id: u64,
        contributor: Address,
        nonce: u64,
        now: u64,
    ) -> (BountyView, Result<i128, EscrowError>) {
        match self.parties {
            None => (self, Err(EscrowError::NotInitialized)),
            Some(parties) => {
                let signer = parties.admin;
                if !nonce_accepted(self.nonces, signer, nonce) {
                    (
                        self,
                        Err(
                            EscrowError::InvalidNonce {
                                expected: nonce_of(self.nonces, signer),
                                got: nonce,
                            },
                        ),
                    )
                } else {
                    let nonces = nonce_step(self.nonces, signer, nonce);
                    let amount = self.requested(bounty_id);
                    let (admitted, decision) = self.monitor.single_admission(amount, now);
                    match decision {
                        Err(refusal) => (
                            BountyView {
                                nonces,
                                monitor: admitted,
                                events: self.events + breach_event(refusal.breach),
                                ..self
                            },
                            Err(refusal.error),
                        ),
                        Ok(()) => if !self.releasable(bounty_id) {
                            let (monitor, breach) = admitted.recorded(false, amount, now);
                            (
                                BountyView {
                                    nonces,
                                    monitor,
                                    events: self.events + breach_event(breach),
                                    ..self
                                },
                                Err(EscrowError::InvalidStatus),
                            )
                        } else {
                            let (monitor, breach) = admitted.recorded(true, amount, now);
                            (
                                BountyView {
                                    escrows: self.escrows.insert(
                                        bounty_id,
                                        Escrow {
                                            status: EscrowStatus::Released,
                                            ..self.escrows[bounty_id]
                                        },
                                    ),
                                    nonces,
                                    monitor,
                                    events: (self.events + breach_event(breach)).push(
                                        ContractEvent::FundsReleased {
                                            bounty_id,
                                            recipient: contributor,
                                            amount,
                                        },
                                    ),
                                    ..self
                                },
                                Ok(amount),
                            )
                        },
                    }
                }
            },
        }
    }

    /// Putting a threshold configuration in force. An invalid configuration
    /// is rejected as a whole and nothing changes.
    pub open spec fn configure_thresholds(self, config: ThresholdConfig) -> (
        BountyView,
        Result<(), EscrowError>,
    ) {
        match config.fault() {
            Some(reason) => (self, Err(EscrowError::InvalidThresholdConfig { reason })),
            None => (BountyView { monitor: self.monitor.with_config(config), ..self }, Ok(())),
        }
    }
}

/// A bounty escrow: the parties, the buckets, the nonce counters, the
/// circuit breaker and the log of reported facts.
pub struct BountyEscrowContract {
    parties: Option<BountyParties>,
    escrows: HashMap<u64, Escrow>,
    nonces: NonceRegistry,
    monitor: ThresholdMonitor,
    events: Vec<ContractEvent>,
}

impl View for BountyEscrowContract {
    type V = BountyView;

    closed spec fn view(&self) -> BountyView {
        BountyView {
            parties: self.parties,
            escrows: self.escrows@,
            nonces: self.nonces@,
            monitor: self.monitor@,
            events: self.events@,
        }
    }
}

impl BountyEscrowContract {
    /// An escrow that has not been created yet.
    pub fn new() -> (contract: BountyEscrowContract)
        ensures
            contract@ == BountyView::initial(),
    {
        BountyEscrowContract {
            parties: None,
            escrows: HashMap::new(),
            nonces: NonceRegistry::new(),
            monitor: ThresholdMonitor::with_default_config(),
            events: Vec::new(),
        }
    }

    /// An escrow that continues from parts kept earlier, with no buckets
    /// yet and nothing reported.
    pub fn restore(
        parties: Option<BountyParties>,
        nonces: NonceRegistry,
        monitor: ThresholdMonitor,
    ) -> (contract: BountyEscrowContract)
        ensures
            contract@ == (BountyView {
                parties,
                escrows: Map::empty(),
                nonces: nonces@,
                monitor: monitor@,
                events: Seq::empty(),
            }),
    {
        BountyEscrowContract {
            parties,
            escrows: HashMap::new(),
            nonces,
            monitor,
            events: Vec::new(),
        }
    }

    /// Takes over a bucket kept earlier, replacing what is held under the
    /// same bounty id.
    pub fn load_escrow(&mut self, bounty_id: u64, escrow: Escrow)
        ensures
            final(self)@ == (BountyView {
                escrows: old(self)@.escrows.insert(bounty_id, escrow),
                ..old(self)@
            }),
    {
        broadcast use group_hash_axioms;

        self.escrows.insert(bounty_id, escrow);
    }

    /// Creates the escrow with `admin` as the identity that may release
    /// funds. Fails with `AlreadyInitialized` if the escrow exists.
    pub fn init(&mut self, admin: Address, token: Address) -> (done: Result<(), EscrowError>)
        ensures
            final(self)@ == old(self)@.init(admin, token).0,
            done == old(self)@.init(admin, token).1,
    {
        if self.parties.is_some() {
            return Err(EscrowError::AlreadyInitialized);
        }
        self.parties = Some(BountyParties { admin, token });
        self.events.push(ContractEvent::BountyInitialized { admin, token });
        Ok(())
    }

    /// Locks `amount` into a new bucket under `bounty_id`.
    ///
    /// Fails with `InvalidAmount` if `amount` is not positive, with
    /// `NotInitialized` if the escrow does not exist, and with
    /// `InvalidStatus` if the bounty id already has a bucket.
    pub fn lock_funds(
        &mut self,
        depositor: Address,
        bounty_id: u64,
        amount: i128,
        deadline: u64,
    ) -> (done: Result<(), EscrowError>)
        ensures
            final(self)@ == old(self)@.lock_funds(depositor, bounty_id, amount, deadline).0,
            done == old(self)@.lock_funds(depositor, bounty_id, amount, deadline).1,
    {
        broadcast use group_hash_axioms;

        if amount <= 0 {
            return Err(EscrowError::InvalidAmount);
        }
        if self.parties.is_none() {
            return Err(EscrowError::NotInitialized);
        }
        if self.escrows.contains_key(&bounty_id) {
            return Err(EscrowError::InvalidStatus);
        }
        self.escrows.insert(
            bounty_id,
            Escrow { depositor, amount, deadline, status: EscrowStatus::Locked },
        );
        self.events.push(
            ContractEvent::BountyFundsLocked { bounty_id, depositor, amount, deadline },
        );
        Ok(())
    }

    /// Releases the bucket of `bounty_id` to `contributor` and returns the
    /// amount to be paid.
    ///
    /// The caller must have authenticated the administrator. What happens
    /// is what [`BountyView::release_funds`] says, station by station: the
    /// state of the bucket is looked at only after the nonce and the
    /// circuit breaker.
    pub fn release_funds(
        &mut self,
        bounty_id: u64,
        contributor: Address,
        nonce: u64,
        now: u64,
    ) -> (outcome: Result<i128, EscrowError>)
        ensures
            final(self)@ == old(self)@.release_funds(bounty_id, contributor, nonce, now).0,
            outcome == old(self)@.release_funds(bounty_id, contributor, nonce, now).1,
    {
        broadcast use group_hash_axioms;

        let signer: Address = match self.parties {
            None => {
                return Err(EscrowError::NotInitialized);
            },
            Some(parties) => parties.admin,
        };
        match validate_and_increment_nonce(&mut self.nonces, &signer, nonce) {
            Err(error) => {
                return Err(error);
            },
            Ok(()) => {},
        }
        let held: Option<Escrow> = self.get_escrow(bounty_id);
        let amount: i128 = match held {
            Some(escrow) => escrow.amount,
            None => 0,
        };
        match self.monitor.check_admission(amount, now) {
            Err(refusal) => {
                log_breach(&mut self.events, refusal.breach);
                return Err(refusal.error);
            },
            Ok(()) => {},
        }
        match held {
            Some(escrow) if escrow.status == EscrowStatus::Locked => {
                self.escrows.insert(bounty_id, Escrow { status: EscrowStatus::Released, ..escrow });
                let breach = self.monitor.record_outcome(true, amount, now);
                log_breach(&mut self.events, breach);
                self.events.push(
                    ContractEvent::FundsReleased { bounty_id, recipient: contributor, amount },
                );
                Ok(amount)
            },
            _ => {
                let breach = self.monitor.record_outcome(false, amount, now);
                log_breach(&mut self.events, breach);
                Err(EscrowError::InvalidStatus)
            },
        }
    }

    /// The bucket held under `bounty_id`, if there is one. Nothing is
    /// changed.
    pub fn get_escrow(&self, bounty_id: u64) -> (held: Option<Escrow>)
        ensures
            held == (if self@.escrows.contains_key(bounty_id) {
                Some(self@.escrows[bounty_id])
            } else {
                None
            }),
    {
        broadcast use group_hash_axioms;

        match self.escrows.get(&bounty_id) {
            Some(escrow) => Some(*escrow),
            None => None,
        }
    }

    /// Get current nonce for a signer: zero for a signer that has never
    /// transacted. Nothing is changed.
    pub fn get_nonce(&self, signer: Address) -> (nonce: u64)
        ensures
            nonce == nonce_of(self@.nonces, signer),
    {
        get_nonce(&self.nonces, &signer)
    }

    /// The parties the escrow was created with, if it has been created.
    pub fn get_parties(&self) -> (parties: Option<BountyParties>)
        ensures
            parties == self@.parties,
    {
        self.parties
    }

    /// Puts a threshold configuration in force. An invalid configuration
    /// is rejected with `InvalidThresholdConfig` and the one in force stays.
    pub fn configure_thresholds(&mut self, config: ThresholdConfig) -> (done: Result<
        (),
        EscrowError,
    >)
        ensures
            final(self)@ == old(self)@.configure_thresholds(config).0,
            done == old(self)@.configure_thresholds(config).1,
            done is Ok <==> config.is_valid(),
    {
        self.monitor.configure(config)
    }

    /// The metrics of the window that is being filled.
    pub fn get_window_metrics(&self) -> (metrics: WindowMetrics)
        ensures
            metrics == self@.monitor.current,
    {
        self.monitor.get_window_metrics()
    }

    /// Everything the circuit breaker keeps.
    pub fn get_monitor_state(&self) -> (state: MonitorState)
        ensures
            state == self@.monitor,
    {
        self.monitor.state()
    }

    /// Hands out the facts reported since the log was last taken, oldest
    /// first, and empties the log.
    pub fn take_events(&mut self) -> (events: Vec<ContractEvent>)
        ensures
            events@ == old(self)@.events,
            final(self)@ == (BountyView { events: Seq::empty(), ..old(self)@ }),
    {
        let mut events: Vec<ContractEvent> = Vec::new();
        std::mem::swap(&mut events, &mut self.events);
        events
    }
}

/// A release whose nonce is not the administrator's current one is refused
/// with `InvalidNonce` and changes nothing, whatever state the bucket is
/// in: the nonce is checked before the status.
pub proof fn lemma_release_checks_nonce_first(
    state: BountyView,
    bounty_id: u64,
    contributor: Address,
    nonce: u64,
    now: u64,
)
    requires
        state.parties is Some,
        !nonce_accepted(state.nonces, state.parties->0.admin, nonce),
    ensures
        state.release_funds(bounty_id, contributor, nonce, now) == (
            state,
            Err::<i128, EscrowError>(
                EscrowError::InvalidNonce {
                    expected: nonce_of(state.nonces, state.parties->0.admin),
                    got: nonce,
                },
            ),
        ),
{
}

/// A release whose nonce is accepted advances the administrator's counter
/// by exactly one, whether or not the bucket is then released, and leaves
/// every other counter alone.
pub proof fn lemma_release_consumes_one_nonce(
    state: BountyView,
    bounty_id: u64,
    contributor: Address,
    nonce: u64,
    now: u64,
)
    requires
        state.parties is Some,
        nonce_accepted(state.nonces, state.parties->0.admin, nonce),
    ensures
        state.release_funds(bounty_id, contributor, nonce, now).0.nonces == nonce_step(
            state.nonces,
            state.parties->0.admin,
            nonce,
        ),
        nonce_of(
            state.release_funds(bounty_id, contributor, nonce, now).0.nonces,
            state.parties->0.admin,
        ) == nonce + 1,
{
}

/// A bucket is released at most once: a release succeeds only on a bucket
/// that still holds its funds, and leaves it released.
pub proof fn lemma_bucket_is_released_once(
    state: BountyView,
    bounty_id: u64,
    contributor: Address,
    nonce: u64,
    now: u64,
)
    ensures
        ({
            let (after, outcome) = state.release_funds(bounty_id, contributor, nonce, now);
            &&& outcome is Ok ==> state.releasable(bounty_id) && !after.releasable(bounty_id)
                && outcome == Ok::<i128, EscrowError>(state.escrows[bounty_id].amount)
            &&& !state.releasable(bounty_id) ==> outcome is Err && after.escrows == state.escrows
        }),
{
}

} // verus!
