use vstd::prelude::*;

verus! {

/// What an address designates: an account (keyed by an ed25519 public key)
/// or a contract (keyed by its hash).
#[derive(Clone, Copy, PartialEq, Eq, Structural, Debug)]
pub enum AddressKind {
    Account,
    Contract,
}

/// A ledger address as plain data: its kind and its 32-byte key, held as the
/// big-endian high and low halves.
#[derive(Clone, Copy, PartialEq, Eq, Structural, Debug)]
pub struct Address {
    pub kind: AddressKind,
    pub key_hi: u128,
    pub key_lo: u128,
}

impl Address {
    /// Builds an address from its kind and the two halves of its key.
    pub fn new(kind: AddressKind, key_hi: u128, key_lo: u128) -> (a: Address)
        ensures
            a.kind == kind,
            a.key_hi == key_hi,
            a.key_lo == key_lo,
    {
        Address { kind, key_hi, key_lo }
    }
}

} // verus!
