//! Identities of signers, recipients and depositors.

use vstd::prelude::*;

verus! {

/// An opaque 256-bit identity of an account or of a contract.
///
/// The escrow core never looks inside an address; it only tells two
/// addresses apart. Two addresses are the same identity exactly when all
/// three fields agree.
#[derive(Clone, Copy, Debug, PartialEq, Eq, Structural, Hash)]
pub struct Address {
    /// `true` for a contract, `false` for an account.
    pub contract: bool,
    /// The upper 128 bits of the identifier.
    pub high: u128,
    /// The lower 128 bits of the identifier.
    pub low: u128,
}

impl Address {
    /// The account identity with the given 256-bit identifier.
    pub fn account(high: u128, low: u128) -> (a: Address)
        ensures
            a == (Address { contract: false, high, low }),
    {
        Address { contract: false, high, low }
    }

    /// The contract identity with the given 256-bit identifier.
    pub fn contract(high: u128, low: u128) -> (a: Address)
        ensures
            a == (Address { contract: true, high, low }),
    {
        Address { contract: true, high, low }
    }
}

} // verus!
