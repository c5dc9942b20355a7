//! Account identities.

use crate::table::Key;
use vstd::prelude::*;

verus! {

/// A 160-bit account identity, held as its high 32 bits and low 128 bits.
///
/// The all-zero value stands for "no one".
#[derive(Clone, Copy, Debug, PartialEq, Eq, Structural, Hash)]
pub struct Address {
    pub hi: u32,
    pub lo: u128,
}

impl Address {
    /// The identity that stands for "no one".
    pub open spec fn zero() -> Address {
        Address { hi: 0, lo: 0 }
    }

    /// The address made of the given high and low parts.
    pub fn new(hi: u32, lo: u128) -> (a: Address)
        ensures
            a == (Address { hi, lo }),
    {
        Address { hi, lo }
    }

    /// The zero identity.
    #[verifier::when_used_as_spec(zero)]
    pub fn zero_address() -> (a: Address)
        ensures
            a == Address::zero(),
    {
        Address { hi: 0, lo: 0 }
    }

    /// Whether this is the zero identity.
    pub fn is_zero(&self) -> (b: bool)
        ensures
            b == (*self == Address::zero()),
    {
        self.hi == 0 && self.lo == 0
    }
}

impl Key for Address {
    fn same(&self, other: &Self) -> (b: bool) {
        self.hi == other.hi && self.lo == other.lo
    }
}

/// An owner together with an operator: the key of an operator approval.
#[derive(Clone, Copy, Debug, PartialEq, Eq, Structural, Hash)]
pub struct Grant {
    pub owner: Address,
    pub operator: Address,
}

impl Key for Grant {
    fn same(&self, other: &Self) -> (b: bool) {
        self.owner.same(&other.owner) && self.operator.same(&other.operator)
    }
}

} // verus!
