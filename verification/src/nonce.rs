//! Per-signer replay protection.
//!
//! Every signer owns one counter that starts at zero. An authorized call
//! must present exactly the counter's current value; presenting it advances
//! the counter by one. A value that was presented once can therefore never
//! be presented again, and values cannot be skipped or reordered.

use crate::address::Address;
use crate::error::EscrowError;
use vstd::prelude::*;

verus! {

/// The key under which a signer's counter is kept.
#[derive(Clone, Copy, Debug, PartialEq, Eq, Structural, Hash)]
pub enum NonceKey {
    Signer(Address),
}

impl NonceKey {
    /// The signer this key belongs to.
    pub open spec fn spec_signer(self) -> Address {
        match self {
            NonceKey::Signer(signer) => signer,
        }
    }

    /// The signer this key belongs to.
    pub fn signer(&self) -> (signer: Address)
        ensures
            signer == self.spec_signer(),
    {
        match self {
            NonceKey::Signer(signer) => *signer,
        }
    }
}

/// The current nonce of `signer` in the counter table `counters`: the stored
/// counter, or zero for a signer that has never transacted.
pub open spec fn nonce_of(counters: Map<Address, u64>, signer: Address) -> u64 {
    if counters.contains_key(signer) {
        counters[signer]
    } else {
        0
    }
}

/// Whether presenting `provided` for `signer` is accepted: it must be the
/// signer's current nonce, and the counter must still have a successor.
pub open spec fn nonce_accepted(
    counters: Map<Address, u64>,
    signer: Address,
    provided: u64,
) -> bool {
    provided == nonce_of(counters, signer) && provided < u64::MAX
}

/// The counter table after `signer` presented `provided`: the signer's
/// counter is advanced by one if the nonce is accepted, and nothing changes
/// otherwise.
pub open spec fn nonce_step(counters: Map<Address, u64>, signer: Address, provided: u64) -> Map<
    Address,
    u64,
> {
    if nonce_accepted(counters, signer, provided) {
        counters.insert(signer, (provided + 1) as u64)
    } else {
        counters
    }
}

/// What the caller is told after `signer` presented `provided`.
pub open spec fn nonce_outcome(
    counters: Map<Address, u64>,
    signer: Address,
    provided: u64,
) -> Result<(), EscrowError> {
    if nonce_accepted(counters, signer, provided) {
        Ok(())
    } else {
        Err(EscrowError::InvalidNonce { expected: nonce_of(counters, signer), got: provided })
    }
}

/// The counter table after a whole sequence of attempts, each a signer and
/// the nonce it presented, applied in order.
pub open spec fn nonce_run(counters: Map<Address, u64>, attempts: Seq<(Address, u64)>) -> Map<
    Address,
    u64,
>
    decreases attempts.len(),
{
    if attempts.len() == 0 {
        counters
    } else {
        let last = attempts.last();
        nonce_step(nonce_run(counters, attempts.drop_last()), last.0, last.1)
    }
}

/// How many attempts of `attempts` were made by `signer` and accepted, when
/// the sequence is applied in order to `counters`.
pub open spec fn accepted_count(
    counters: Map<Address, u64>,
    attempts: Seq<(Address, u64)>,
    signer: Address,
) -> nat
    decreases attempts.len(),
{
    if attempts.len() == 0 {
        0
    } else {
        let last = attempts.last();
        let earlier = attempts.drop_last();
        let hit: nat = if last.0 == signer && nonce_accepted(
            nonce_run(counters, earlier),
            signer,
            last.1,
        ) {
            1
        } else {
            0
        };
        accepted_count(counters, earlier, signer) + hit
    }
}

#[derive(Clone, Copy)]
struct NonceEntry {
    key: NonceKey,
    counter: u64,
}

/// The table of nonce counters, one per signer that has transacted.
pub struct NonceRegistry {
    entries: Vec<NonceEntry>,
}

impl View for NonceRegistry {
    type V = Map<Address, u64>;

    /// The counters as a map from signer to stored counter. A signer that
    /// has never transacted is not in the map's domain.
    closed spec fn view(&self) -> Map<Address, u64> {
        Map::new(
            |signer: Address| holds(self.entries@, signer),
            |signer: Address| self.entries@[slot(self.entries@, signer)].counter,
        )
    }
}

/// Whether some entry of `entries` belongs to `signer`.
spec fn holds(entries: Seq<NonceEntry>, signer: Address) -> bool {
    exists|i: int| 0 <= i < entries.len() && #[trigger] entries[i].key == NonceKey::Signer(signer)
}

/// The position of an entry of `entries` that belongs to `signer`.
spec fn slot(entries: Seq<NonceEntry>, signer: Address) -> int {
    choose|i: int| 0 <= i < entries.len() && #[trigger] entries[i].key == NonceKey::Signer(signer)
}

/// No two entries of `entries` belong to the same signer.
spec fn distinct(entries: Seq<NonceEntry>) -> bool {
    forall|i: int, j: int|
        0 <= i < j < entries.len() ==> (#[trigger] entries[i]).key != (#[trigger] entries[j]).key
}

impl NonceRegistry {
    #[verifier::type_invariant]
    spec fn well_formed(self) -> bool {
        distinct(self.entries@)
    }

    /// An empty table: every signer's nonce is zero.
    pub fn new() -> (store: NonceRegistry)
        ensures
            store@ == Map::<Address, u64>::empty(),
    {
        let store = NonceRegistry { entries: Vec::new() };
        assert(store@ =~= Map::<Address, u64>::empty());
        store
    }

    /// Takes over a persisted counter for a signer the table does not hold
    /// yet. A signer that is already present keeps its counter, and the call
    /// reports `false`.
    pub fn load(&mut self, signer: Address, counter: u64) -> (loaded: bool)
        ensures
            loaded == !old(self)@.contains_key(signer),
            loaded ==> final(self)@ == old(self)@.insert(signer, counter),
            !loaded ==> final(self)@ == old(self)@,
    {
        match self.position(&signer) {
            Some(_) => false,
            None => {
                self.put(&signer, counter);
                true
            },
        }
    }

    /// Where the entry of `signer` is, if there is one.
    fn position(&self, signer: &Address) -> (found: Option<usize>)
        ensures
            match found {
                Some(i) => i < self.entries@.len() && self.entries@[i as int].key
                    == NonceKey::Signer(*signer) && self@.contains_key(*signer) && self@[*signer]
                    == self.entries@[i as int].counter,
                None => !self@.contains_key(*signer),
            },
    {
        proof {
            use_type_invariant(self);
        }
        let mut i: usize = 0;
        while i < self.entries.len()
            invariant
                i <= self.entries@.len(),
                distinct(self.entries@),
                forall|k: int| 0 <= k < i ==> self.entries@[k].key != NonceKey::Signer(*signer),
            decreases self.entries@.len() - i,
        {
            if self.entries[i].key.signer() == *signer {
                proof {
                    assert(self.entries@[i as int].key == NonceKey::Signer(*signer));
                    assert(holds(self.entries@, *signer));
                    let k = slot(self.entries@, *signer);
                    assert(self.entries@[k].key == self.entries@[i as int].key);
                    assert(k == i);
                }
                return Some(i);
            }
            i = i + 1;
        }
        None
    }

    /// Stores `counter` for `signer`, replacing what was stored before.
    fn put(&mut self, signer: &Address, counter: u64)
        ensures
            final(self)@ == old(self)@.insert(*signer, counter),
    {
        proof {
            use_type_invariant(&*self);
        }
        let found = self.position(signer);
        let entry = NonceEntry { key: NonceKey::Signer(*signer), counter };
        let ghost before = self.entries@;
        let mut entries: Vec<NonceEntry> = Vec::new();
        std::mem::swap(&mut entries, &mut self.entries);
        match found {
            Some(i) => {
                entries.set(i, entry);
            },
            None => {
                entries.push(entry);
            },
        }
        proof {
            let after = entries@;
            assert(distinct(after));
            assert forall|a: Address| holds(after, a) == (a == *signer || holds(before, a)) by {
                if holds(after, a) {
                    let k = slot(after, a);
                    if a != *signer {
                        assert(before[k].key == NonceKey::Signer(a));
                    }
                }
                if holds(before, a) {
                    let k = slot(before, a);
                    assert(after[k].key == NonceKey::Signer(a));
                }
                if a == *signer {
                    match found {
                        Some(i) => {
                            assert(after[i as int].key == NonceKey::Signer(a));
                        },
                        None => {
                            assert(after[before.len() as int].key == NonceKey::Signer(a));
                        },
                    }
                }
            }
            assert forall|a: Address| holds(after, a) implies after[slot(after, a)].counter == (if a
                == *signer {
                counter
            } else {
                before[slot(before, a)].counter
            }) by {
                let k = slot(after, a);
                if a == *signer {
                    match found {
                        Some(i) => {
                            assert(after[i as int].key == NonceKey::Signer(a));
                            assert(k == i);
                        },
                        None => {
                            assert(after[before.len() as int].key == NonceKey::Signer(a));
                            assert(k == before.len());
                        },
                    }
                } else {
                    assert(before[k].key == NonceKey::Signer(a));
                    assert(holds(before, a));
                    assert(slot(before, a) == k);
                }
            }
        }
        self.entries = entries;
        assert(self@ =~= old(self)@.insert(*signer, counter));
    }
}

/// The current nonce of `signer`: zero if the signer has never transacted,
/// otherwise the stored counter. Nothing is changed.
pub fn get_nonce(store: &NonceRegistry, signer: &Address) -> (nonce: u64)
    ensures
        nonce == nonce_of(store@, *signer),
{
    match store.position(signer) {
        Some(i) => store.entries[i].counter,
        None => 0,
    }
}

/// Checks that `provided_nonce` is the current nonce of `signer` and, if it
/// is, advances the signer's counter by one.
///
/// A nonce that is not the current one is refused with
/// [`EscrowError::InvalidNonce`], which names the expected and the supplied
/// value, and nothing is stored. A counter that has reached `u64::MAX` has
/// no successor and refuses every further nonce in the same way.
pub fn validate_and_increment_nonce(
    store: &mut NonceRegistry,
    signer: &Address,
    provided_nonce: u64,
) -> (outcome: Result<(), EscrowError>)
    ensures
        outcome == nonce_outcome(old(store)@, *signer, provided_nonce),
        final(store)@ == nonce_step(old(store)@, *signer, provided_nonce),
{
    let current_nonce: u64 = get_nonce(store, signer);
    if provided_nonce != current_nonce || current_nonce == u64::MAX {
        return Err(EscrowError::InvalidNonce { expected: current_nonce, got: provided_nonce });
    }
    store.put(signer, current_nonce + 1);
    Ok(())
}

/// Before any accepted call every signer's nonce is zero.
pub proof fn lemma_fresh_nonce_is_zero(signer: Address)
    ensures
        nonce_of(Map::<Address, u64>::empty(), signer) == 0,
{
}

/// An accepted nonce advances the signer's counter by exactly one, whichever
/// operation presented it; a refused nonce leaves the whole table as it was.
pub proof fn lemma_accepted_nonce_advances_by_one(
    counters: Map<Address, u64>,
    signer: Address,
    provided: u64,
)
    ensures
        nonce_accepted(counters, signer, provided) ==> nonce_of(
            nonce_step(counters, signer, provided),
            signer,
        ) == nonce_of(counters, signer) + 1,
        !nonce_accepted(counters, signer, provided) ==> nonce_step(counters, signer, provided)
            == counters,
{
}

/// A counter never decreases, whatever attempts are made by whomever.
pub proof fn lemma_nonces_never_decrease(
    counters: Map<Address, u64>,
    attempts: Seq<(Address, u64)>,
    signer: Address,
)
    ensures
        nonce_of(nonce_run(counters, attempts), signer) >= nonce_of(counters, signer),
    decreases attempts.len(),
{
    if attempts.len() > 0 {
        lemma_nonces_never_decrease(counters, attempts.drop_last(), signer);
    }
}

/// Once a signer's nonce has been accepted, presenting the same nonce again
/// is refused with `InvalidNonce` and changes nothing, no matter which
/// attempts were made in between.
pub proof fn lemma_replay_is_rejected(
    counters: Map<Address, u64>,
    signer: Address,
    nonce: u64,
    between: Seq<(Address, u64)>,
)
    requires
        nonce_accepted(counters, signer, nonce),
    ensures
        ({
            let later = nonce_run(nonce_step(counters, signer, nonce), between);
            &&& nonce_of(later, signer) > nonce
            &&& nonce_outcome(later, signer, nonce) == Err::<(), EscrowError>(
                EscrowError::InvalidNonce { expected: nonce_of(later, signer), got: nonce },
            )
            &&& nonce_step(later, signer, nonce) == later
        }),
{
    lemma_nonces_never_decrease(nonce_step(counters, signer, nonce), between, signer);
}

/// A nonce ahead of the signer's current one is refused with `InvalidNonce`
/// and changes nothing: values cannot be skipped.
pub proof fn lemma_gap_is_rejected(counters: Map<Address, u64>, signer: Address, provided: u64)
    requires
        provided > nonce_of(counters, signer),
    ensures
        nonce_outcome(counters, signer, provided) == Err::<(), EscrowError>(
            EscrowError::InvalidNonce { expected: nonce_of(counters, signer), got: provided },
        ),
        nonce_step(counters, signer, provided) == counters,
{
}

/// A signer's nonce is its starting value plus the number of its attempts
/// that were accepted. From an empty table the accepted nonces of a signer
/// are therefore exactly 0, 1, 2, ... in this order.
pub proof fn lemma_nonce_counts_accepted_attempts(
    counters: Map<Address, u64>,
    attempts: Seq<(Address, u64)>,
    signer: Address,
)
    ensures
        nonce_of(nonce_run(counters, attempts), signer) == nonce_of(counters, signer)
            + accepted_count(counters, attempts, signer),
    decreases attempts.len(),
{
    if attempts.len() > 0 {
        lemma_nonce_counts_accepted_attempts(counters, attempts.drop_last(), signer);
    }
}

/// Nonces are scoped per signer: what one signer presents never changes the
/// nonce of another.
pub proof fn lemma_signers_are_independent(
    counters: Map<Address, u64>,
    signer: Address,
    provided: u64,
    other: Address,
)
    requires
        other != signer,
    ensures
        nonce_of(nonce_step(counters, signer, provided), other) == nonce_of(counters, other),
{
}

} // verus!
