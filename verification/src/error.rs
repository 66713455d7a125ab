use vstd::prelude::*;

verus! {

/// Why a request to the ledger was refused.
#[derive(Clone, Copy, PartialEq, Eq, Structural, Debug)]
pub enum VestingError {
    /// No administrator has been recorded.
    AdminNotSet,
    /// An ownership transfer was accepted with none proposed.
    NoProposedAdmin,
    /// The administrator's balance is below the amount of a new vault.
    InsufficientAdminBalance,
    /// The administrator's balance is below the total of a batch.
    InsufficientBatchBalance,
    /// No vault is stored under the given id.
    VaultNotFound,
    /// The vault has not been initialized yet.
    VaultNotInitialized,
    /// A claim of zero or less.
    NonPositiveClaim,
    /// A single claim above what has vested and is not yet released.
    InsufficientTokens,
    /// A claim within a multi-vault claim above what has vested in that vault
    /// and is not yet released.
    InsufficientVaultTokens,
    /// The id list and the amount list of a multi-vault claim differ in length.
    LengthMismatch,
    /// A multi-vault claim with no vault.
    EmptyClaim,
    /// A batch lists fewer amounts or times than recipients.
    MissingBatchEntry,
    /// An amount, a sum or a vault id left the range of its integer type.
    Overflow,
}

impl VestingError {
    /// The text with which the request is rejected.
    pub fn message(&self) -> (m: &'static str)
        ensures
            *self == VestingError::AdminNotSet ==> m@ == "Admin not set"@,
            *self == VestingError::NoProposedAdmin ==> m@ == "No proposed admin found"@,
            *self == VestingError::InsufficientAdminBalance ==> m@ == "Insufficient admin balance"@,
            *self == VestingError::InsufficientBatchBalance ==> m@
                == "Insufficient admin balance for batch"@,
            *self == VestingError::VaultNotFound ==> m@ == "Vault not found"@,
            *self == VestingError::VaultNotInitialized ==> m@ == "Vault not initialized"@,
            *self == VestingError::NonPositiveClaim ==> m@ == "Claim amount must be positive"@,
            *self == VestingError::InsufficientTokens ==> m@ == "Insufficient tokens to claim"@,
            *self == VestingError::InsufficientVaultTokens ==> m@
                == "Insufficient tokens in vault"@,
            *self == VestingError::LengthMismatch ==> m@
                == "vault_ids and claim_amounts must be the same length"@,
            *self == VestingError::EmptyClaim ==> m@ == "Must provide at least one vault"@,
            *self == VestingError::MissingBatchEntry ==> m@ == "Batch entry missing"@,
            *self == VestingError::Overflow ==> m@ == "Arithmetic overflow"@,
    {
        match self {
            VestingError::AdminNotSet => "Admin not set",
            VestingError::NoProposedAdmin => "No proposed admin found",
            VestingError::InsufficientAdminBalance => "Insufficient admin balance",
            VestingError::InsufficientBatchBalance => "Insufficient admin balance for batch",
            VestingError::VaultNotFound => "Vault not found",
            VestingError::VaultNotInitialized => "Vault not initialized",
            VestingError::NonPositiveClaim => "Claim amount must be positive",
            VestingError::InsufficientTokens => "Insufficient tokens to claim",
            VestingError::InsufficientVaultTokens => "Insufficient tokens in vault",
            VestingError::LengthMismatch => "vault_ids and claim_amounts must be the same length",
            VestingError::EmptyClaim => "Must provide at least one vault",
            VestingError::MissingBatchEntry => "Batch entry missing",
            VestingError::Overflow => "Arithmetic overflow",
        }
    }
}

} // verus!
