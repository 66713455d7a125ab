use vstd::prelude::*;
use crate::address::Address;

verus! {

/// A vault: an amount set aside for an owner, of which `released_amount` has
/// been claimed. A lazily created vault is not initialized until its metadata
/// is set up, and cannot be claimed from before.
#[derive(Clone, Copy, PartialEq, Eq, Structural, Debug)]
pub struct Vault {
    pub owner: Address,
    pub total_amount: i128,
    pub released_amount: i128,
    pub start_time: u64,
    pub end_time: u64,
    pub is_initialized: bool,
}

/// A payment owed by the ledger: `amount` to `recipient`, in `token` when a
/// token is recorded (with none recorded the claim is only booked).
#[derive(Clone, Copy, PartialEq, Eq, Structural, Debug)]
pub struct Payout {
    pub token: Option<Address>,
    pub recipient: Address,
    pub amount: i128,
}

/// The parameters of a batch of vaults: entry `i` of each list describes the
/// `i`-th vault.
pub struct BatchCreateData {
    pub recipients: Vec<Address>,
    pub amounts: Vec<i128>,
    pub start_times: Vec<u64>,
    pub end_times: Vec<u64>,
}

/// The vault that a lookup of a missing id stands in with: empty, owned by
/// `owner`, not initialized.
pub open spec fn empty_vault(owner: Address) -> Vault {
    Vault {
        owner,
        total_amount: 0,
        released_amount: 0,
        start_time: 0,
        end_time: 0,
        is_initialized: false,
    }
}

/// A fresh vault holding `amount`, nothing released.
pub open spec fn fresh_vault(owner: Address, amount: i128, start_time: u64, end_time: u64, initialized: bool) -> Vault {
    Vault {
        owner,
        total_amount: amount,
        released_amount: 0,
        start_time,
        end_time,
        is_initialized: initialized,
    }
}

impl Vault {
    /// The empty, uninitialized vault of `owner`.
    pub(crate) fn empty(owner: Address) -> (v: Vault)
        ensures
            v == empty_vault(owner),
    {
        Vault {
            owner,
            total_amount: 0,
            released_amount: 0,
            start_time: 0,
            end_time: 0,
            is_initialized: false,
        }
    }

    /// A fresh vault holding `amount` for `owner`.
    pub(crate) fn fresh(owner: Address, amount: i128, start_time: u64, end_time: u64, initialized: bool) -> (v: Vault)
        ensures
            v == fresh_vault(owner, amount, start_time, end_time, initialized),
    {
        Vault {
            owner,
            total_amount: amount,
            released_amount: 0,
            start_time,
            end_time,
            is_initialized: initialized,
        }
    }
}

} // verus!
