//! The abstract ledger and what each operation does to it.

use vstd::prelude::*;
use crate::address::Address;
use crate::error::VestingError;
use crate::user_index::{ids_of, with_appended};
use crate::vault::{Vault, BatchCreateData, Payout, empty_vault, fresh_vault};
use crate::schedule::vested;

verus! {

#[verifier::ext_equal]
/// The ledger as values: what the contract keeps in its storage, plus the
/// contract's own address.
pub struct ContractView {
    pub address: Address,
    pub token: Option<Address>,
    pub initial_supply: i128,
    pub admin_balance: i128,
    pub admin: Option<Address>,
    pub proposed_admin: Option<Address>,
    pub vault_count: u64,
    pub vaults: Map<u64, Vault>,
    pub user_vaults: Map<Address, Seq<u64>>,
}

pub open spec fn fits_i128(x: int) -> bool {
    i128::MIN <= x <= i128::MAX
}

/// The refusal, if any, of a request that only the administrator may make:
/// there must be an administrator (whose authorization the caller of the
/// ledger obtains).
pub open spec fn admin_refusal(s: ContractView) -> Option<VestingError> {
    match s.admin {
        None => Some(VestingError::AdminNotSet),
        Some(_) => None,
    }
}

/// The ledger after `initialize`: supply and balance set, administrator
/// recorded, vault numbering restarted.
pub open spec fn initialized(s: ContractView, admin: Address, initial_supply: i128) -> ContractView {
    ContractView {
        initial_supply,
        admin_balance: initial_supply,
        admin: Some(admin),
        vault_count: 0,
        ..s
    }
}

pub open spec fn proposal_outcome(s: ContractView, new_admin: Address) -> Result<ContractView, VestingError> {
    match admin_refusal(s) {
        Some(e) => Err(e),
        None => Ok(ContractView { proposed_admin: Some(new_admin), ..s }),
    }
}

/// Accepting the proposal (authorized by the proposed administrator).
pub open spec fn acceptance_outcome(s: ContractView) -> Result<ContractView, VestingError> {
    match s.proposed_admin {
        None => Err(VestingError::NoProposedAdmin),
        Some(p) => Ok(ContractView { admin: Some(p), proposed_admin: None, ..s }),
    }
}

/// Recording the token in which claims are paid.
pub open spec fn token_outcome(s: ContractView, token: Address) -> Result<ContractView, VestingError> {
    match admin_refusal(s) {
        Some(e) => Err(e),
        None => Ok(ContractView { token: Some(token), ..s }),
    }
}

/// Creating one vault of `amount` for `owner`; `full` creates it initialized
/// and listed under its owner, otherwise it is created lazily.
pub open spec fn creation_outcome(
    s: ContractView,
    owner: Address,
    amount: i128,
    start_time: u64,
    end_time: u64,
    full: bool,
) -> Result<(ContractView, u64), VestingError> {
    match admin_refusal(s) {
        Some(e) => Err(e),
        None => if s.vault_count == u64::MAX {
            Err(VestingError::Overflow)
        } else if s.admin_balance < amount {
            Err(VestingError::InsufficientAdminBalance)
        } else if !fits_i128(s.admin_balance - amount) {
            Err(VestingError::Overflow)
        } else {
            let id = (s.vault_count + 1) as u64;
            Ok((
                ContractView {
                    admin_balance: (s.admin_balance - amount) as i128,
                    vaults: s.vaults.insert(id, fresh_vault(owner, amount, start_time, end_time, full)),
                    user_vaults: if full {
                        with_appended(s.user_vaults, owner, id)
                    } else {
                        s.user_vaults
                    },
                    vault_count: id,
                    ..s
                },
                id,
            ))
        },
    }
}

/// The vault stored under `id`, or the empty vault of the contract itself.
pub open spec fn stored_or_empty(s: ContractView, id: u64) -> Vault {
    if s.vaults.contains_key(id) {
        s.vaults[id]
    } else {
        empty_vault(s.address)
    }
}

/// Setting up a vault's metadata: an uninitialized (or missing) vault becomes
/// initialized and is listed under its owner; the flag tells whether it was.
pub open spec fn metadata_outcome(s: ContractView, id: u64) -> (ContractView, bool) {
    let v = stored_or_empty(s, id);
    if !v.is_initialized {
        (
            ContractView {
                vaults: s.vaults.insert(id, Vault { is_initialized: true, ..v }),
                user_vaults: with_appended(s.user_vaults, v.owner, id),
                ..s
            },
            true,
        )
    } else {
        (s, false)
    }
}

/// One claim of `amount` from vault `id` at time `now`; `short` is the
/// refusal for a claim above what has vested and is not yet released.
pub open spec fn claim_step(vaults: Map<u64, Vault>, id: u64, amount: i128, now: u64, short: VestingError) -> Result<Map<u64, Vault>, VestingError> {
    if !vaults.contains_key(id) {
        Err(VestingError::VaultNotFound)
    } else if !vaults[id].is_initialized {
        Err(VestingError::VaultNotInitialized)
    } else if amount <= 0 {
        Err(VestingError::NonPositiveClaim)
    } else if !fits_i128(vested(vaults[id], now) - vaults[id].released_amount) {
        Err(VestingError::Overflow)
    } else if amount > vested(vaults[id], now) - vaults[id].released_amount {
        Err(short)
    } else {
        Ok(vaults.insert(id, Vault { released_amount: (vaults[id].released_amount + amount) as i128, ..vaults[id] }))
    }
}

/// Claiming `amount` from vault `id` at time `now`: the vault's owner is owed
/// `amount`, in the recorded token if there is one.
pub open spec fn claim_outcome(s: ContractView, id: u64, amount: i128, now: u64) -> Result<(ContractView, Payout), VestingError> {
    match claim_step(s.vaults, id, amount, now, VestingError::InsufficientTokens) {
        Err(e) => Err(e),
        Ok(m) => Ok((ContractView { vaults: m, ..s }, Payout { token: s.token, recipient: s.vaults[id].owner, amount })),
    }
}

/// The first `k` claims of a multi-vault claim, made one after another.
pub open spec fn claims_upto(vaults: Map<u64, Vault>, ids: Seq<u64>, amounts: Seq<i128>, now: u64, k: nat) -> Result<Map<u64, Vault>, VestingError>
    decreases k,
{
    if k == 0 {
        Ok(vaults)
    } else {
        match claims_upto(vaults, ids, amounts, now, (k - 1) as nat) {
            Err(e) => Err(e),
            Ok(m) => claim_step(m, ids[k - 1], amounts[k - 1], now, VestingError::InsufficientVaultTokens),
        }
    }
}

/// The payments of a multi-vault claim: claim `i` pays the owner of vault
/// `ids[i]` the amount `amounts[i]`.
pub open spec fn payouts(vaults: Map<u64, Vault>, token: Option<Address>, ids: Seq<u64>, amounts: Seq<i128>) -> Seq<Payout> {
    Seq::new(ids.len(), |i: int| Payout { token, recipient: vaults[ids[i]].owner, amount: amounts[i] })
}

pub open spec fn claim_all_outcome(s: ContractView, ids: Seq<u64>, amounts: Seq<i128>, now: u64) -> Result<(ContractView, Seq<Payout>), VestingError> {
    if ids.len() != amounts.len() {
        Err(VestingError::LengthMismatch)
    } else if ids.len() == 0 {
        Err(VestingError::EmptyClaim)
    } else {
        match claims_upto(s.vaults, ids, amounts, now, ids.len()) {
            Err(e) => Err(e),
            Ok(m) => Ok((ContractView { vaults: m, ..s }, payouts(s.vaults, s.token, ids, amounts))),
        }
    }
}

/// What can still be claimed from vault `id` at time `now`: what has vested
/// less what was released.
pub open spec fn claimable_outcome(s: ContractView, id: u64, now: u64) -> Result<i128, VestingError> {
    if !s.vaults.contains_key(id) {
        Err(VestingError::VaultNotFound)
    } else if !fits_i128(vested(s.vaults[id], now) - s.vaults[id].released_amount) {
        Err(VestingError::Overflow)
    } else {
        Ok((vested(s.vaults[id], now) - s.vaults[id].released_amount) as i128)
    }
}

/// The sum of the first `k` amounts, if every partial sum fits an `i128`.
pub open spec fn checked_sum(xs: Seq<i128>, k: nat) -> Option<int>
    decreases k,
{
    if k == 0 {
        Some(0)
    } else {
        match checked_sum(xs, (k - 1) as nat) {
            None => None,
            Some(p) => if fits_i128(p + xs[k - 1]) {
                Some(p + xs[k - 1])
            } else {
                None
            },
        }
    }
}

/// The vaults after the first `k` vaults of a batch are stored under the ids
/// that follow `base`.
pub open spec fn batch_vaults(vaults: Map<u64, Vault>, base: u64, b: BatchCreateData, full: bool, k: nat) -> Map<u64, Vault>
    decreases k,
{
    if k == 0 {
        vaults
    } else {
        batch_vaults(vaults, base, b, full, (k - 1) as nat).insert(
            (base + k) as u64,
            fresh_vault(b.recipients@[k - 1], b.amounts@[k - 1], b.start_times@[k - 1], b.end_times@[k - 1], full),
        )
    }
}

/// The owner lists after the first `k` vaults of a batch are listed under
/// their recipients.
pub open spec fn batch_lists(lists: Map<Address, Seq<u64>>, base: u64, recipients: Seq<Address>, k: nat) -> Map<Address, Seq<u64>>
    decreases k,
{
    if k == 0 {
        lists
    } else {
        with_appended(batch_lists(lists, base, recipients, (k - 1) as nat), recipients[k - 1], (base + k) as u64)
    }
}

/// The number of batch entries that have an amount and both times.
pub open spec fn complete_entries(b: BatchCreateData) -> nat {
    let a = b.amounts@.len();
    let s = b.start_times@.len();
    let e = b.end_times@.len();
    if a <= s && a <= e {
        a
    } else if s <= e {
        s
    } else {
        e
    }
}

/// The ids `base + 1 ..= base + n`.
pub open spec fn id_range(base: u64, n: nat) -> Seq<u64> {
    Seq::new(n, |i: int| (base + i + 1) as u64)
}

/// Creating one vault per recipient of a batch; the administrator's balance
/// is charged the sum of all listed amounts.
pub open spec fn batch_outcome(s: ContractView, b: BatchCreateData, full: bool) -> Result<(ContractView, Seq<u64>), VestingError> {
    let n = b.recipients@.len();
    let m = complete_entries(b);
    match admin_refusal(s) {
        Some(e) => Err(e),
        None => match checked_sum(b.amounts@, b.amounts@.len()) {
            None => Err(VestingError::Overflow),
            Some(total) => if s.admin_balance < total {
                Err(VestingError::InsufficientBatchBalance)
            } else if !fits_i128(s.admin_balance - total) {
                Err(VestingError::Overflow)
            } else if n > m && s.vault_count + m + 1 <= u64::MAX {
                Err(VestingError::MissingBatchEntry)
            } else if s.vault_count + n > u64::MAX {
                Err(VestingError::Overflow)
            } else {
                Ok((
                    ContractView {
                        admin_balance: (s.admin_balance - total) as i128,
                        vaults: batch_vaults(s.vaults, s.vault_count, b, full, n),
                        user_vaults: if full {
                            batch_lists(s.user_vaults, s.vault_count, b.recipients@, n)
                        } else {
                            s.user_vaults
                        },
                        vault_count: (s.vault_count + n) as u64,
                        ..s
                    },
                    id_range(s.vault_count, n),
                ))
            },
        },
    }
}

/// Reading a vault sets up its metadata first; the vault read is the one
/// stored afterwards.
pub open spec fn read_outcome(s: ContractView, id: u64) -> (ContractView, Vault) {
    let t = metadata_outcome(s, id).0;
    (t, t.vaults[id])
}

/// The metadata of the first `k` listed vaults set up, one after another.
pub open spec fn metadata_upto(s: ContractView, ids: Seq<u64>, k: nat) -> ContractView
    decreases k,
{
    if k == 0 {
        s
    } else {
        metadata_outcome(metadata_upto(s, ids, (k - 1) as nat), ids[k - 1]).0
    }
}

pub open spec fn listing_outcome(s: ContractView, user: Address) -> (ContractView, Seq<u64>) {
    let ids = ids_of(s.user_vaults, user);
    (metadata_upto(s, ids, ids.len()), ids)
}

/// Amounts still locked and amounts claimed over the vaults `1 ..= k`, if no
/// step of the running sums leaves the range of an `i128`.
pub open spec fn totals_upto(s: ContractView, k: nat) -> Option<(int, int)>
    decreases k,
{
    if k == 0 {
        Some((0, 0))
    } else {
        match totals_upto(s, (k - 1) as nat) {
            None => None,
            Some(p) => {
                let id = k as u64;
                if !s.vaults.contains_key(id) {
                    Some(p)
                } else {
                    let v = s.vaults[id];
                    let d = v.total_amount - v.released_amount;
                    if !fits_i128(d) || !fits_i128(p.0 + d) || !fits_i128(p.1 + v.released_amount) {
                        None
                    } else {
                        Some((p.0 + d, p.1 + v.released_amount))
                    }
                }
            },
        }
    }
}

pub open spec fn state_outcome(s: ContractView) -> Result<(i128, i128, i128), VestingError> {
    match totals_upto(s, s.vault_count as nat) {
        None => Err(VestingError::Overflow),
        Some(t) => Ok((t.0 as i128, t.1 as i128, s.admin_balance)),
    }
}

pub open spec fn invariant_outcome(s: ContractView) -> Result<bool, VestingError> {
    match state_outcome(s) {
        Err(e) => Err(e),
        Ok(t) => if !fits_i128(t.0 + t.1) || !fits_i128(t.0 + t.1 + t.2) {
            Err(VestingError::Overflow)
        } else {
            Ok(t.0 + t.1 + t.2 == s.initial_supply)
        },
    }
}

/// The amounts held by the vaults `1 ..= k`, released or not.
pub open spec fn held_upto(vaults: Map<u64, Vault>, k: nat) -> int
    decreases k,
{
    if k == 0 {
        0
    } else {
        held_upto(vaults, (k - 1) as nat) + if vaults.contains_key(k as u64) {
            vaults[k as u64].total_amount as int
        } else {
            0
        }
    }
}

/// Every token of the initial supply is either with the administrator or in
/// one of the numbered vaults.
pub open spec fn conserved(s: ContractView) -> bool {
    s.initial_supply == s.admin_balance + held_upto(s.vaults, s.vault_count as nat)
}

} // verus!

verus! {

/// Once a multi-vault claim is refused, later claims do not change the
/// refusal.
pub(crate) proof fn lemma_claims_refusal_persists(vaults: Map<u64, Vault>, ids: Seq<u64>, amounts: Seq<i128>, now: u64, i: nat, n: nat)
    requires
        i <= n,
        claims_upto(vaults, ids, amounts, now, i) is Err,
    ensures
        claims_upto(vaults, ids, amounts, now, n) == claims_upto(vaults, ids, amounts, now, i),
    decreases n - i,
{
    if i < n {
        lemma_claims_refusal_persists(vaults, ids, amounts, now, i, (n - 1) as nat);
    }
}

/// Once a running sum leaves the range, the whole sum is undefined.
pub(crate) proof fn lemma_checked_sum_overflow_persists(xs: Seq<i128>, i: nat, n: nat)
    requires
        i <= n,
        checked_sum(xs, i) is None,
    ensures
        checked_sum(xs, n) is None,
    decreases n - i,
{
    if i < n {
        lemma_checked_sum_overflow_persists(xs, i, (n - 1) as nat);
    }
}

/// Once a running total leaves the range, the totals are undefined.
pub(crate) proof fn lemma_totals_overflow_persists(s: ContractView, i: nat, n: nat)
    requires
        i <= n,
        totals_upto(s, i) is None,
    ensures
        totals_upto(s, n) is None,
    decreases n - i,
{
    if i < n {
        lemma_totals_overflow_persists(s, i, (n - 1) as nat);
    }
}

} // verus!
