//! A token-vesting ledger: an administrator funds vaults for beneficiaries out
//! of a fixed initial supply, and beneficiaries claim from their vaults.
//!
//! The ledger is a plain value (`VestingContract`) whose every operation is a
//! state transition with an exact contract over the abstract `ContractView`.
//! A refused request leaves the ledger unchanged, as a reverted transaction
//! would.

pub mod address;
pub mod vault;
pub mod schedule;
pub mod error;
pub mod user_index;
pub mod vault_table;
pub mod model;
pub mod request;
pub mod contract;
pub mod laws;
pub mod behaviour;

pub use address::{Address, AddressKind};
pub use vault::{Vault, BatchCreateData, Payout};
pub use error::VestingError;
pub use contract::VestingContract;
pub use request::Request;
