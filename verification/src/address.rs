//! Account and contract identifiers, and equality on 32-byte values.

use vstd::prelude::*;

verus! {

/// Whether an identifier names a user account or a deployed contract.
#[derive(Clone, Copy, Debug, PartialEq, Eq, Structural)]
pub enum AddressKind {
    Account,
    Contract,
}

/// The identity of a party: its kind and its 32-byte key.
///
/// Two addresses are the same party exactly when both fields agree, which
/// is what `==` means in every contract of this crate.
#[derive(Clone, Copy, Debug, PartialEq, Eq)]
pub struct Address {
    pub kind: AddressKind,
    pub key: [u8; 32],
}

/// Whether two 32-byte values hold the same bytes.
pub fn bytes32_eq(a: &[u8; 32], b: &[u8; 32]) -> (same: bool)
    ensures
        same == (*a == *b),
        same == (a@ == b@),
{
    let mut i: usize = 0;
    while i < 32
        invariant
            i <= 32,
            forall|j: int| 0 <= j < i ==> a[j] == b[j],
        decreases 32 - i,
    {
        if a[i] != b[i] {
            return false;
        }
        i += 1;
    }
    assert(*a =~= *b);
    true
}

impl Address {
    /// An address of the given kind and key.
    pub fn new(kind: AddressKind, key: [u8; 32]) -> (address: Address)
        ensures
            address == (Address { kind, key }),
    {
        Address { kind, key }
    }

    /// Whether `self` and `other` name the same party.
    pub fn same(&self, other: &Address) -> (same: bool)
        ensures
            same == (*self == *other),
    {
        let kinds = match (self.kind, other.kind) {
            (AddressKind::Account, AddressKind::Account) => true,
            (AddressKind::Contract, AddressKind::Contract) => true,
            _ => false,
        };
        kinds && bytes32_eq(&self.key, &other.key)
    }

    /// Whether `slot` holds exactly this address.
    pub fn is_in(&self, slot: &Option<Address>) -> (held: bool)
        ensures
            held == (*slot == Some(*self)),
    {
        match slot {
            Some(other) => self.same(other),
            None => false,
        }
    }
}

} // verus!
