//! The escrow ledger: locked funds, the remaining balance and the payout
//! history of one escrow.
//!
//! The ledger only keeps books. Whether a payout is authorized and whether
//! the circuit breaker lets it pass is decided before the ledger is asked;
//! moving the value happens after it has answered.

use crate::address::Address;
use crate::error::EscrowError;
use vstd::prelude::*;

verus! {

/// One executed payout. A record is never rewritten or removed.
#[derive(Clone, Copy, Debug, PartialEq, Eq, Structural)]
pub struct PayoutRecord {
    pub recipient: Address,
    pub amount: i128,
    pub timestamp: u64,
}

/// The books of one escrow as they are handed to callers.
#[derive(Debug, PartialEq, Eq)]
pub struct ProgramData {
    pub program_id: String,
    pub total_funds: i128,
    pub remaining_balance: i128,
    pub authorized_payout_key: Address,
    pub payout_history: Vec<PayoutRecord>,
}

/// The books of one escrow as a mathematical value.
pub struct ProgramView {
    /// The identifier the escrow was created under.
    pub program_id: String,
    /// Everything that was ever locked.
    pub total_funds: i128,
    /// What has not been paid out yet.
    pub remaining_balance: i128,
    /// The identity that may authorize payouts.
    pub authorized_payout_key: Address,
    /// Every payout made, oldest first.
    pub payout_history: Seq<PayoutRecord>,
}

impl View for ProgramData {
    type V = ProgramView;

    open spec fn view(&self) -> ProgramView {
        ProgramView {
            program_id: self.program_id,
            total_funds: self.total_funds,
            remaining_balance: self.remaining_balance,
            authorized_payout_key: self.authorized_payout_key,
            payout_history: self.payout_history@,
        }
    }
}

impl Clone for ProgramData {
    fn clone(&self) -> (copy: Self)
        ensures
            copy@ == self@,
    {
        let payout_history = self.payout_history.clone();
        assert(payout_history@ =~= self.payout_history@);
        ProgramData {
            program_id: self.program_id.clone(),
            total_funds: self.total_funds,
            remaining_balance: self.remaining_balance,
            authorized_payout_key: self.authorized_payout_key,
            payout_history,
        }
    }
}

/// The sum of `amounts`.
pub open spec fn total_of(amounts: Seq<i128>) -> int
    decreases amounts.len(),
{
    if amounts.len() == 0 {
        0
    } else {
        total_of(amounts.drop_last()) + amounts.last()
    }
}

/// The sum of the amounts on record in `history`.
pub open spec fn paid_total(history: Seq<PayoutRecord>) -> int
    decreases history.len(),
{
    if history.len() == 0 {
        0
    } else {
        paid_total(history.drop_last()) + history.last().amount
    }
}

/// Whether every amount of `amounts` is greater than zero.
pub open spec fn all_positive(amounts: Seq<i128>) -> bool {
    forall|i: int| 0 <= i < amounts.len() ==> amounts[i] > 0
}

/// Whether every record of `history` moved an amount greater than zero.
pub open spec fn all_paid_positive(history: Seq<PayoutRecord>) -> bool {
    forall|i: int| 0 <= i < history.len() ==> (#[trigger] history[i]).amount > 0
}

/// The records of a batch: one per line item, in order, all stamped with
/// the same time.
pub open spec fn batch_records(recipients: Seq<Address>, amounts: Seq<i128>, timestamp: u64) -> Seq<
    PayoutRecord,
> {
    Seq::new(
        amounts.len(),
        |i: int| PayoutRecord { recipient: recipients[i], amount: amounts[i], timestamp },
    )
}

impl ProgramView {
    /// The books of a freshly created escrow: nothing locked, nothing paid.
    pub open spec fn created(program_id: String, authorized_payout_key: Address) -> ProgramView {
        ProgramView {
            program_id,
            total_funds: 0,
            remaining_balance: 0,
            authorized_payout_key,
            payout_history: Seq::empty(),
        }
    }

    /// The invariant of the books: the remaining balance is never negative
    /// and never above what was locked, and every payout on record moved a
    /// positive amount.
    pub open spec fn wf(self) -> bool {
        &&& 0 <= self.remaining_balance <= self.total_funds
        &&& all_paid_positive(self.payout_history)
    }

    /// Whether `amount` can be locked: it must be positive, and the total
    /// must stay representable.
    pub open spec fn lock_outcome(self, amount: i128) -> Result<(), EscrowError> {
        if amount <= 0 || self.total_funds + amount > i128::MAX {
            Err(EscrowError::InvalidAmount)
        } else {
            Ok(())
        }
    }

    /// The books after an attempt to lock `amount`: both the total and the
    /// remaining balance grow by `amount` if it can be locked.
    pub open spec fn locked(self, amount: i128) -> ProgramView {
        if self.lock_outcome(amount) is Ok {
            ProgramView {
                total_funds: (self.total_funds + amount) as i128,
                remaining_balance: (self.remaining_balance + amount) as i128,
                ..self
            }
        } else {
            self
        }
    }

    /// Whether `amount` can be paid out: it must be positive and covered by
    /// the remaining balance.
    pub open spec fn payout_outcome(self, amount: i128) -> Result<(), EscrowError> {
        if amount <= 0 {
            Err(EscrowError::InvalidAmount)
        } else if amount > self.remaining_balance {
            Err(EscrowError::InsufficientBalance)
        } else {
            Ok(())
        }
    }

    /// The books after an attempt to pay `amount` to `recipient` at time
    /// `timestamp`: the balance shrinks by `amount` and one record is
    /// appended if the payout can be made.
    pub open spec fn paid(self, recipient: Address, amount: i128, timestamp: u64) -> ProgramView {
        if self.payout_outcome(amount) is Ok {
            ProgramView {
                remaining_balance: (self.remaining_balance - amount) as i128,
                payout_history: self.payout_history.push(
                    PayoutRecord { recipient, amount, timestamp },
                ),
                ..self
            }
        } else {
            self
        }
    }

    /// Whether a batch can be paid out: there must be one amount per
    /// recipient, every amount must be positive, and the remaining balance
    /// must cover their sum.
    pub open spec fn batch_outcome(self, recipients: Seq<Address>, amounts: Seq<i128>) -> Result<
        (),
        EscrowError,
    > {
        if recipients.len() != amounts.len() || !all_positive(amounts) {
            Err(EscrowError::InvalidAmount)
        } else if total_of(amounts) > self.remaining_balance {
            Err(EscrowError::InsufficientBalance)
        } else {
            Ok(())
        }
    }

    /// The books after an attempt to pay a batch at time `timestamp`: the
    /// balance shrinks once by the sum of the batch and one record per line
    /// item is appended if the batch can be paid; otherwise nothing changes.
    pub open spec fn batch_paid(
        self,
        recipients: Seq<Address>,
        amounts: Seq<i128>,
        timestamp: u64,
    ) -> ProgramView {
        if self.batch_outcome(recipients, amounts) is Ok {
            ProgramView {
                remaining_balance: (self.remaining_balance - total_of(amounts)) as i128,
                payout_history: self.payout_history + batch_records(
                    recipients,
                    amounts,
                    timestamp,
                ),
                ..self
            }
        } else {
            self
        }
    }
}

/// The books of one escrow. The invariant of [`ProgramView::wf`] holds of
/// every ledger at all times.
pub struct EscrowLedger {
    program_id: String,
    total_funds: i128,
    remaining_balance: i128,
    authorized_payout_key: Address,
    payout_history: Vec<PayoutRecord>,
}

impl View for EscrowLedger {
    type V = ProgramView;

    closed spec fn view(&self) -> ProgramView {
        ProgramView {
            program_id: self.program_id,
            total_funds: self.total_funds,
            remaining_balance: self.remaining_balance,
            authorized_payout_key: self.authorized_payout_key,
            payout_history: self.payout_history@,
        }
    }
}

impl EscrowLedger {
    #[verifier::type_invariant]
    pub(crate) open spec fn well_formed(self) -> bool {
        self@.wf()
    }

    /// The zero-balance ledger of a new escrow.
    pub fn new(program_id: String, authorized_payout_key: Address) -> (ledger: EscrowLedger)
        ensures
            ledger@ == ProgramView::created(program_id, authorized_payout_key),
            ledger@.wf(),
    {
        EscrowLedger {
            program_id,
            total_funds: 0,
            remaining_balance: 0,
            authorized_payout_key,
            payout_history: Vec::new(),
        }
    }

    /// The ledger that continues from books kept earlier. Books that break
    /// the invariant are not taken over.
    pub fn restore(data: ProgramData) -> (made: Option<EscrowLedger>)
        ensures
            made is Some <==> data@.wf(),
            made matches Some(ledger) ==> ledger@ == data@,
    {
        if data.remaining_balance < 0 || data.remaining_balance > data.total_funds {
            return None;
        }
        let mut i: usize = 0;
        while i < data.payout_history.len()
            invariant
                i <= data.payout_history@.len(),
                all_paid_positive(data.payout_history@.take(i as int)),
            decreases data.payout_history@.len() - i,
        {
            if data.payout_history[i].amount <= 0 {
                assert(data.payout_history@[i as int].amount <= 0);
                return None;
            }
            proof {
                let longer = data.payout_history@.take(i as int + 1);
                assert forall|k: int| 0 <= k < longer.len() implies (#[trigger] longer[k]).amount
                    > 0 by {
                    if k < i {
                        assert(longer[k] == data.payout_history@.take(i as int)[k]);
                    }
                }
            }
            i = i + 1;
        }
        proof {
            assert(data.payout_history@.take(i as int) =~= data.payout_history@);
        }
        Some(
            EscrowLedger {
                program_id: data.program_id,
                total_funds: data.total_funds,
                remaining_balance: data.remaining_balance,
                authorized_payout_key: data.authorized_payout_key,
                payout_history: data.payout_history,
            },
        )
    }

    /// A copy of the books.
    pub fn snapshot(&self) -> (data: ProgramData)
        ensures
            data@ == self@,
            data@.wf(),
    {
        proof {
            use_type_invariant(self);
        }
        let payout_history = self.payout_history.clone();
        assert(payout_history@ =~= self.payout_history@);
        ProgramData {
            program_id: self.program_id.clone(),
            total_funds: self.total_funds,
            remaining_balance: self.remaining_balance,
            authorized_payout_key: self.authorized_payout_key,
            payout_history,
        }
    }

    /// The identifier the escrow was created under.
    pub fn program_id(&self) -> (id: String)
        ensures
            id == self@.program_id,
    {
        self.program_id.clone()
    }

    /// The identity that may authorize payouts.
    pub fn authorized_payout_key(&self) -> (key: Address)
        ensures
            key == self@.authorized_payout_key,
            self@.wf(),
    {
        proof {
            use_type_invariant(self);
        }
        self.authorized_payout_key
    }

    /// Everything that was ever locked.
    pub fn total_funds(&self) -> (total: i128)
        ensures
            total == self@.total_funds,
            total >= self@.remaining_balance,
    {
        proof {
            use_type_invariant(self);
        }
        self.total_funds
    }

    /// What has not been paid out yet: never negative, never more than the
    /// total.
    pub fn remaining_balance(&self) -> (balance: i128)
        ensures
            balance == self@.remaining_balance,
            0 <= balance <= self@.total_funds,
    {
        proof {
            use_type_invariant(self);
        }
        self.remaining_balance
    }

    /// Locks `amount` more: the total and the remaining balance both grow
    /// by it. An amount that is not positive, or that would make the total
    /// unrepresentable, is refused with `InvalidAmount` and changes nothing.
    pub fn lock_funds(&mut self, amount: i128) -> (done: Result<(), EscrowError>)
        ensures
            done == old(self)@.lock_outcome(amount),
            final(self)@ == old(self)@.locked(amount),
            final(self)@.wf(),
    {
        proof {
            use_type_invariant(&*self);
        }
        if amount <= 0 {
            return Err(EscrowError::InvalidAmount);
        }
        match self.total_funds.checked_add(amount) {
            Some(total) => {
                self.total_funds = total;
                self.remaining_balance = self.remaining_balance + amount;
                Ok(())
            },
            None => Err(EscrowError::InvalidAmount),
        }
    }

    /// Whether `amount` could be paid out now: `InvalidAmount` unless it is
    /// positive, `InsufficientBalance` if it exceeds the remaining balance.
    pub fn check_payout(&self, amount: i128) -> (checked: Result<(), EscrowError>)
        ensures
            checked == self@.payout_outcome(amount),
    {
        if amount <= 0 {
            Err(EscrowError::InvalidAmount)
        } else if amount > self.remaining_balance {
            Err(EscrowError::InsufficientBalance)
        } else {
            Ok(())
        }
    }

    /// Pays `amount` to `recipient`: the remaining balance shrinks by it
    /// and the payout is appended to the history. A payout that cannot be
    /// made is refused as [`EscrowLedger::check_payout`] says and changes
    /// nothing.
    pub fn pay(&mut self, recipient: Address, amount: i128, timestamp: u64) -> (done: Result<
        (),
        EscrowError,
    >)
        ensures
            done == old(self)@.payout_outcome(amount),
            final(self)@ == old(self)@.paid(recipient, amount, timestamp),
            final(self)@.wf(),
    {
        proof {
            use_type_invariant(&*self);
        }
        match self.check_payout(amount) {
            Err(error) => Err(error),
            Ok(()) => {
                let mut history: Vec<PayoutRecord> = Vec::new();
                std::mem::swap(&mut history, &mut self.payout_history);
                history.push(PayoutRecord { recipient, amount, timestamp });
                proof {
                    let before = old(self)@.payout_history;
                    assert forall|k: int| 0 <= k < history@.len() implies (
                    #[trigger] history@[k]).amount > 0 by {
                        if k < before.len() {
                            assert(history@[k] == before[k]);
                        }
                    }
                }
                self.remaining_balance = self.remaining_balance - amount;
                self.payout_history = history;
                Ok(())
            },
        }
    }

    /// Whether the batch could be paid out now, and its sum if it could.
    ///
    /// `InvalidAmount` unless there is one amount per recipient and every
    /// amount is positive; `InsufficientBalance` if the sum of the amounts
    /// exceeds the remaining balance.
    pub fn check_batch(&self, recipients: &Vec<Address>, amounts: &Vec<i128>) -> (checked: Result<
        i128,
        EscrowError,
    >)
        ensures
            match checked {
                Ok(total) => self@.batch_outcome(recipients@, amounts@) is Ok && total == total_of(
                    amounts@,
                ),
                Err(error) => self@.batch_outcome(recipients@, amounts@) == Err::<(), EscrowError>(
                    error,
                ),
            },
    {
        proof {
            use_type_invariant(self);
        }
        if recipients.len() != amounts.len() {
            return Err(EscrowError::InvalidAmount);
        }
        let mut i: usize = 0;
        while i < amounts.len()
            invariant
                i <= amounts@.len(),
                forall|k: int| 0 <= k < i ==> amounts@[k] > 0,
            decreases amounts@.len() - i,
        {
            if amounts[i] <= 0 {
                assert(amounts@[i as int] <= 0);
                return Err(EscrowError::InvalidAmount);
            }
            i = i + 1;
        }
        let mut total: i128 = 0;
        let mut j: usize = 0;
        while j < amounts.len()
            invariant
                j <= amounts@.len(),
                recipients@.len() == amounts@.len(),
                all_positive(amounts@),
                0 <= self.remaining_balance,
                total == total_of(amounts@.take(j as int)),
                0 <= total <= self.remaining_balance,
            decreases amounts@.len() - j,
        {
            proof {
                assert(amounts@.take(j as int + 1).drop_last() =~= amounts@.take(j as int));
                lemma_partial_total_is_bounded(amounts@, j as int + 1);
            }
            if amounts[j] > self.remaining_balance - total {
                assert(total_of(amounts@.take(j as int + 1)) == total + amounts@[j as int]);
                return Err(EscrowError::InsufficientBalance);
            }
            total = total + amounts[j];
            j = j + 1;
        }
        proof {
            assert(amounts@.take(amounts@.len() as int) =~= amounts@);
        }
        Ok(total)
    }

    /// Pays a whole batch or nothing of it, and returns the sum paid.
    ///
    /// If the batch can be paid, the remaining balance shrinks once by the
    /// sum of the amounts and one record per line item is appended to the
    /// history, in order. A batch that cannot be paid is refused as
    /// [`EscrowLedger::check_batch`] says and changes nothing.
    pub fn pay_batch(
        &mut self,
        recipients: &Vec<Address>,
        amounts: &Vec<i128>,
        timestamp: u64,
    ) -> (done: Result<i128, EscrowError>)
        ensures
            match done {
                Ok(total) => old(self)@.batch_outcome(recipients@, amounts@) is Ok && total
                    == total_of(amounts@),
                Err(error) => old(self)@.batch_outcome(recipients@, amounts@) == Err::<
                    (),
                    EscrowError,
                >(error),
            },
            final(self)@ == old(self)@.batch_paid(recipients@, amounts@, timestamp),
            final(self)@.wf(),
    {
        proof {
            use_type_invariant(&*self);
        }
        match self.check_batch(recipients, amounts) {
            Err(error) => Err(error),
            Ok(total) => {
                let ghost before = self.payout_history@;
                let ghost records = batch_records(recipients@, amounts@, timestamp);
                assert(all_paid_positive(before));
                proof {
                    lemma_total_is_not_negative(amounts@);
                }
                let mut history: Vec<PayoutRecord> = Vec::new();
                std::mem::swap(&mut history, &mut self.payout_history);
                let mut i: usize = 0;
                while i < amounts.len()
                    invariant
                        i <= amounts@.len(),
                        recipients@.len() == amounts@.len(),
                        all_positive(amounts@),
                        records == batch_records(recipients@, amounts@, timestamp),
                        history@ == before + records.take(i as int),
                        all_paid_positive(before),
                    decreases amounts@.len() - i,
                {
                    history.push(
                        PayoutRecord { recipient: recipients[i], amount: amounts[i], timestamp },
                    );
                    proof {
                        assert(history@ =~= before + records.take(i as int + 1));
                    }
                    i = i + 1;
                }
                proof {
                    assert(records.take(amounts@.len() as int) =~= records);
                    assert forall|k: int| 0 <= k < history@.len() implies (
                    #[trigger] history@[k]).amount > 0 by {
                        if k >= before.len() {
                            assert(history@[k] == records[k - before.len()]);
                        } else {
                            assert(history@[k] == before[k]);
                        }
                    }
                }
                self.remaining_balance = self.remaining_balance - total;
                self.payout_history = history;
                Ok(total)
            },
        }
    }
}

/// The sum of the first line items of a batch of positive amounts never
/// exceeds the sum of the whole batch.
pub proof fn lemma_partial_total_is_bounded(amounts: Seq<i128>, count: int)
    requires
        all_positive(amounts),
        0 <= count <= amounts.len(),
    ensures
        0 <= total_of(amounts.take(count)) <= total_of(amounts),
    decreases amounts.len() - count,
{
    if count == amounts.len() {
        assert(amounts.take(count) =~= amounts);
        lemma_total_is_not_negative(amounts);
    } else {
        lemma_partial_total_is_bounded(amounts, count + 1);
        assert(amounts.take(count + 1).drop_last() =~= amounts.take(count));
        lemma_total_is_not_negative(amounts.take(count));
    }
}

/// The sum of positive amounts is not negative.
pub proof fn lemma_total_is_not_negative(amounts: Seq<i128>)
    requires
        all_positive(amounts),
    ensures
        total_of(amounts) >= 0,
    decreases amounts.len(),
{
    if amounts.len() > 0 {
        lemma_total_is_not_negative(amounts.drop_last());
    }
}

/// Appending the records of a batch adds the sum of the batch to the sum
/// on record.
pub proof fn lemma_batch_adds_its_total(
    history: Seq<PayoutRecord>,
    recipients: Seq<Address>,
    amounts: Seq<i128>,
    timestamp: u64,
)
    ensures
        paid_total(history + batch_records(recipients, amounts, timestamp)) == paid_total(history)
            + total_of(amounts),
    decreases amounts.len(),
{
    let records = batch_records(recipients, amounts, timestamp);
    if amounts.len() == 0 {
        assert(history + records =~= history);
    } else {
        let fewer = amounts.drop_last();
        let fewer_records = batch_records(recipients, fewer, timestamp);
        lemma_batch_adds_its_total(history, recipients, fewer, timestamp);
        assert((history + records).drop_last() =~= history + fewer_records);
        assert((history + records).last().amount == amounts.last());
    }
}

} // verus!
