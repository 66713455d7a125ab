//! What each operation does, stated over its inputs and results.

use vstd::prelude::*;
use crate::address::Address;
use crate::error::VestingError;
use crate::vault::{Vault, Payout, BatchCreateData};
use crate::schedule::vested;
use crate::model::{
    ContractView, initialized, token_outcome, claim_all_outcome, claims_upto, claim_step, proposal_outcome, acceptance_outcome, creation_outcome, claim_outcome,
    claimable_outcome, read_outcome, metadata_outcome, listing_outcome, state_outcome,
    totals_upto, batch_outcome, checked_sum, batch_vaults, fits_i128,
};

verus! {

/// With an administrator recorded, a proposal always succeeds and makes
/// `new_admin` the proposed administrator, replacing any earlier proposal
/// and changing nothing else; with none recorded it is refused.
pub proof fn law_proposal_replaces(s: ContractView, new_admin: Address)
    ensures
        s.admin is Some ==> proposal_outcome(s, new_admin) == Ok::<ContractView, VestingError>(
            ContractView { proposed_admin: Some(new_admin), ..s },
        ),
        s.admin is Some ==> proposal_outcome(s, new_admin)->Ok_0.proposed_admin == Some(new_admin),
        s.admin is None ==> proposal_outcome(s, new_admin) == Err::<ContractView, VestingError>(
            VestingError::AdminNotSet,
        ),
{
}

/// Accepting a pending proposal always succeeds: the proposed administrator
/// becomes the administrator and the proposal is cleared.
pub proof fn law_acceptance_installs_proposed(s: ContractView, p: Address)
    requires
        s.proposed_admin == Some(p),
    ensures
        acceptance_outcome(s) is Ok,
        acceptance_outcome(s)->Ok_0.admin == Some(p),
        acceptance_outcome(s)->Ok_0.proposed_admin is None,
        acceptance_outcome(s)->Ok_0.vaults == s.vaults,
{
}

/// A vault whose amount the administrator's balance covers is always
/// created: it gets the next id, holds the whole amount with nothing
/// released, the balance is charged exactly the amount, and no other vault
/// changes. A vault the balance does not cover is refused.
pub proof fn law_creation_within_balance(
    s: ContractView,
    owner: Address,
    amount: i128,
    start_time: u64,
    end_time: u64,
    full: bool,
)
    ensures
        s.admin is Some && s.vault_count < u64::MAX && amount <= s.admin_balance
            && s.admin_balance - amount <= i128::MAX ==> ({
            let r = creation_outcome(s, owner, amount, start_time, end_time, full);
            &&& r is Ok
            &&& r->Ok_0.1 == s.vault_count + 1
            &&& r->Ok_0.0.vault_count == s.vault_count + 1
            &&& r->Ok_0.0.admin_balance == s.admin_balance - amount
            &&& r->Ok_0.0.vaults.contains_key(r->Ok_0.1)
            &&& r->Ok_0.0.vaults[r->Ok_0.1] == (Vault {
                owner,
                total_amount: amount,
                released_amount: 0,
                start_time,
                end_time,
                is_initialized: full,
            })
            &&& forall|k: u64|
                k != r->Ok_0.1 ==> (#[trigger] r->Ok_0.0.vaults.contains_key(k) <==> s.vaults.contains_key(k))
                    && (s.vaults.contains_key(k) ==> r->Ok_0.0.vaults[k] == s.vaults[k])
            &&& r->Ok_0.0.initial_supply == s.initial_supply
            &&& full ==> r->Ok_0.0.user_vaults.contains_key(owner) && r->Ok_0.0.user_vaults[owner] == (if s.user_vaults.contains_key(owner) {
                s.user_vaults[owner]
            } else {
                Seq::empty()
            }).push(r->Ok_0.1)
            &&& !full ==> r->Ok_0.0.user_vaults == s.user_vaults
        }),
        s.admin is Some && s.vault_count < u64::MAX && s.admin_balance < amount ==> creation_outcome(
            s,
            owner,
            amount,
            start_time,
            end_time,
            full,
        ) == Err::<(ContractView, u64), VestingError>(VestingError::InsufficientAdminBalance),
{
}

/// A claim succeeds exactly when the vault exists, is initialized, and the
/// (positive) amount is at most what has vested by `now` less what was
/// released; it then releases exactly that amount from that vault alone and
/// owes it to the vault's owner.
pub proof fn law_claim_succeeds_when_vested(s: ContractView, id: u64, amount: i128, now: u64)
    requires
        s.vaults.contains_key(id) ==> i128::MIN <= vested(s.vaults[id], now) - s.vaults[id].released_amount
            <= i128::MAX,
    ensures
        (claim_outcome(s, id, amount, now) is Ok) <==> (s.vaults.contains_key(id) && s.vaults[id].is_initialized
            && 0 < amount && amount <= vested(s.vaults[id], now) - s.vaults[id].released_amount),
        claim_outcome(s, id, amount, now) is Ok ==> ({
            let (t, p) = claim_outcome(s, id, amount, now)->Ok_0;
            &&& p == (Payout { token: s.token, recipient: s.vaults[id].owner, amount })
            &&& t.vaults[id] == (Vault { released_amount: (s.vaults[id].released_amount + amount) as i128, ..s.vaults[id] })
            &&& t.vaults[id].released_amount == s.vaults[id].released_amount + amount
            &&& forall|k: u64|
                k != id ==> (#[trigger] t.vaults.contains_key(k) <==> s.vaults.contains_key(k)) && (
                s.vaults.contains_key(k) ==> t.vaults[k] == s.vaults[k])
            &&& t.vaults.contains_key(id)
            &&& t.admin_balance == s.admin_balance
            &&& t.user_vaults == s.user_vaults
        }),
{
    if s.vaults.contains_key(id) {
        crate::schedule::law_vesting_schedule(s.vaults[id], now, now);
    }
}

/// Two claims from one vault, at times `t1 <= t2`, both succeed when their
/// sum is within what has vested by `t2` less what was released, and the
/// first is within what has vested by `t1`.
pub proof fn law_successive_claims(s: ContractView, id: u64, a: i128, b: i128, t1: u64, t2: u64)
    requires
        s.vaults.contains_key(id),
        s.vaults[id].is_initialized,
        0 <= s.vaults[id].released_amount,
        0 <= s.vaults[id].total_amount,
        0 < a,
        0 < b,
        t1 <= t2,
        a <= vested(s.vaults[id], t1) - s.vaults[id].released_amount,
        a + b <= vested(s.vaults[id], t2) - s.vaults[id].released_amount,
    ensures
        claim_outcome(s, id, a, t1) is Ok,
        claim_outcome(claim_outcome(s, id, a, t1)->Ok_0.0, id, b, t2) is Ok,
        claim_outcome(claim_outcome(s, id, a, t1)->Ok_0.0, id, b, t2)->Ok_0.0.vaults[id].released_amount
            == s.vaults[id].released_amount + a + b,
{
    let v = s.vaults[id];
    crate::schedule::law_vesting_schedule(v, t1, t2);
    crate::schedule::law_vesting_schedule(v, t2, t2);
}

/// What a claimable-amount query answers: for a stored vault, what has
/// vested by `now` less what was released.
pub proof fn law_claimable_is_vested_less_released(s: ContractView, id: u64, now: u64)
    ensures
        !s.vaults.contains_key(id) ==> claimable_outcome(s, id, now) == Err::<i128, VestingError>(
            VestingError::VaultNotFound,
        ),
        s.vaults.contains_key(id) && fits_i128(vested(s.vaults[id], now) - s.vaults[id].released_amount)
            ==> claimable_outcome(s, id, now) is Ok && claimable_outcome(s, id, now)->Ok_0 == vested(
            s.vaults[id],
            now,
        ) - s.vaults[id].released_amount,
{
}

/// A read returns exactly the vault then stored under the id: the stored
/// vault itself when it is initialized (and nothing changes), otherwise the
/// stored (or empty) vault with only its flag set.
pub proof fn law_read_returns_stored(s: ContractView, id: u64)
    ensures
        read_outcome(s, id).0.vaults.contains_key(id),
        read_outcome(s, id).1 == read_outcome(s, id).0.vaults[id],
        read_outcome(s, id).1.is_initialized,
        s.vaults.contains_key(id) && s.vaults[id].is_initialized ==> read_outcome(s, id) == (s, s.vaults[id]),
        s.vaults.contains_key(id) && !s.vaults[id].is_initialized ==> read_outcome(s, id).1 == (Vault {
            is_initialized: true,
            ..s.vaults[id]
        }),
        !s.vaults.contains_key(id) ==> read_outcome(s, id).1 == (Vault {
            owner: s.address,
            total_amount: 0,
            released_amount: 0,
            start_time: 0,
            end_time: 0,
            is_initialized: true,
        }),
        forall|k: u64|
            k != id ==> (#[trigger] read_outcome(s, id).0.vaults.contains_key(k) <==> s.vaults.contains_key(k)) && (
            s.vaults.contains_key(k) ==> read_outcome(s, id).0.vaults[k] == s.vaults[k]),
{
}

/// Setting up metadata reports whether the vault was uninitialized; when it
/// was, the vault (same amounts, times and owner) becomes initialized and its
/// id is appended to its owner's list.
pub proof fn law_metadata_sets_up(s: ContractView, id: u64)
    ensures
        s.vaults.contains_key(id) && s.vaults[id].is_initialized ==> metadata_outcome(s, id) == (s, false),
        s.vaults.contains_key(id) && !s.vaults[id].is_initialized ==> ({
            let (t, r) = metadata_outcome(s, id);
            let v = s.vaults[id];
            &&& r
            &&& t.vaults[id] == (Vault { is_initialized: true, ..v })
            &&& t.user_vaults.contains_key(v.owner)
            &&& t.user_vaults[v.owner] == (if s.user_vaults.contains_key(v.owner) {
                s.user_vaults[v.owner]
            } else {
                Seq::empty()
            }).push(id)
        }),
{
}

/// Setting up the metadata of a missing vault stores an empty, initialized
/// vault of the contract itself under that id and lists the id under the
/// contract.
pub proof fn law_metadata_of_missing_vault(s: ContractView, id: u64)
    requires
        !s.vaults.contains_key(id),
    ensures
        ({
            let (t, r) = metadata_outcome(s, id);
            &&& r
            &&& t.vaults.contains_key(id)
            &&& t.vaults[id] == (Vault {
                owner: s.address,
                total_amount: 0,
                released_amount: 0,
                start_time: 0,
                end_time: 0,
                is_initialized: true,
            })
            &&& t.user_vaults.contains_key(s.address)
            &&& t.user_vaults[s.address] == (if s.user_vaults.contains_key(s.address) {
                s.user_vaults[s.address]
            } else {
                Seq::empty()
            }).push(id)
        }),
{
}

/// Initializing records the administrator and the supply, gives the whole
/// supply to the administrator, restarts the numbering and keeps the vaults.
pub proof fn law_initialize_records(s: ContractView, admin: Address, supply: i128)
    ensures
        initialized(s, admin, supply).admin == Some(admin),
        initialized(s, admin, supply).initial_supply == supply,
        initialized(s, admin, supply).admin_balance == supply,
        initialized(s, admin, supply).vault_count == 0,
        initialized(s, admin, supply).vaults == s.vaults,
        initialized(s, admin, supply).user_vaults == s.user_vaults,
        initialized(s, admin, supply).proposed_admin == s.proposed_admin,
{
}

/// With an administrator recorded, recording a token always succeeds and
/// replaces any earlier one.
pub proof fn law_token_recorded(s: ContractView, token: Address)
    ensures
        s.admin is Some ==> token_outcome(s, token) is Ok && token_outcome(s, token)->Ok_0.token == Some(token)
            && token_outcome(s, token)->Ok_0.vaults == s.vaults,
        s.admin is None ==> token_outcome(s, token) == Err::<ContractView, VestingError>(VestingError::AdminNotSet),
{
}

/// Listing a user's vaults answers the ids recorded for the user, in order.
pub proof fn law_listing_answers_recorded(s: ContractView, user: Address)
    ensures
        s.user_vaults.contains_key(user) ==> listing_outcome(s, user).1 == s.user_vaults[user],
        !s.user_vaults.contains_key(user) ==> listing_outcome(s, user).1 == Seq::<u64>::empty(),
{
}

/// The amounts still locked in the vaults `1 ..= k`: each stored vault's
/// total less what it released.
pub open spec fn locked_sum(vaults: Map<u64, Vault>, k: nat) -> int
    decreases k,
{
    if k == 0 {
        0
    } else {
        locked_sum(vaults, (k - 1) as nat) + if vaults.contains_key(k as u64) {
            vaults[k as u64].total_amount - vaults[k as u64].released_amount
        } else {
            0
        }
    }
}

/// The amounts released from the vaults `1 ..= k`.
pub open spec fn released_sum(vaults: Map<u64, Vault>, k: nat) -> int
    decreases k,
{
    if k == 0 {
        0
    } else {
        released_sum(vaults, (k - 1) as nat) + if vaults.contains_key(k as u64) {
            vaults[k as u64].released_amount as int
        } else {
            0
        }
    }
}

proof fn lemma_totals_are_sums(s: ContractView, k: nat)
    requires
        totals_upto(s, k) is Some,
    ensures
        totals_upto(s, k)->Some_0 == (locked_sum(s.vaults, k), released_sum(s.vaults, k)),
    decreases k,
{
    if k > 0 {
        lemma_totals_are_sums(s, (k - 1) as nat);
    }
}

/// The state report is the amounts still locked, the amounts released, and
/// the administrator's balance.
pub proof fn law_state_reports_sums(s: ContractView)
    requires
        state_outcome(s) is Ok,
    ensures
        state_outcome(s)->Ok_0.0 == locked_sum(s.vaults, s.vault_count as nat),
        state_outcome(s)->Ok_0.1 == released_sum(s.vaults, s.vault_count as nat),
        state_outcome(s)->Ok_0.2 == s.admin_balance,
{
    lemma_totals_are_sums(s, s.vault_count as nat);
    crate::laws::lemma_totals_fit(s, s.vault_count as nat);
}

proof fn lemma_sums_after_release(vaults: Map<u64, Vault>, id: u64, v: Vault, k: nat)
    requires
        vaults.contains_key(id),
        v.total_amount == vaults[id].total_amount,
        k <= u64::MAX,
    ensures
        locked_sum(vaults.insert(id, v), k) == locked_sum(vaults, k) - (if 1 <= id <= k {
            v.released_amount - vaults[id].released_amount
        } else {
            0
        }),
        released_sum(vaults.insert(id, v), k) == released_sum(vaults, k) + (if 1 <= id <= k {
            v.released_amount - vaults[id].released_amount
        } else {
            0
        }),
    decreases k,
{
    if k > 0 {
        lemma_sums_after_release(vaults, id, v, (k - 1) as nat);
    }
}

/// A claim from a numbered vault moves exactly the claimed amount from what
/// is locked to what is released.
pub proof fn law_claim_moves_locked_to_released(s: ContractView, id: u64, amount: i128, now: u64)
    requires
        claim_outcome(s, id, amount, now) is Ok,
        1 <= id <= s.vault_count,
    ensures
        ({
            let t = claim_outcome(s, id, amount, now)->Ok_0.0;
            &&& t.vault_count == s.vault_count
            &&& locked_sum(t.vaults, t.vault_count as nat) == locked_sum(s.vaults, s.vault_count as nat) - amount
            &&& released_sum(t.vaults, t.vault_count as nat) == released_sum(s.vaults, s.vault_count as nat) + amount
        }),
{
    let v = s.vaults[id];
    crate::schedule::law_vesting_schedule(v, now, now);
    lemma_sums_after_release(
        s.vaults,
        id,
        Vault { released_amount: (v.released_amount + amount) as i128, ..v },
        s.vault_count as nat,
    );
}

proof fn lemma_checked_sum_when_fitting(xs: Seq<i128>, k: nat)
    requires
        k <= xs.len(),
        forall|j: nat| j <= k ==> fits_i128(#[trigger] crate::laws::amount_sum(xs, j)),
    ensures
        checked_sum(xs, k) == Some(crate::laws::amount_sum(xs, k)),
    decreases k,
{
    if k > 0 {
        lemma_checked_sum_when_fitting(xs, (k - 1) as nat);
    }
}

/// A complete batch (one amount and both times per recipient) whose running
/// totals fit, whose total the administrator's balance covers and whose ids
/// fit, is always created: vault `count + i + 1` holds entry `i`, the
/// balance is charged the batch total, and the ids come back in order.
pub proof fn law_batch_creates_entries(s: ContractView, b: BatchCreateData, full: bool)
    requires
        s.admin is Some,
        b.amounts@.len() == b.recipients@.len(),
        b.start_times@.len() == b.recipients@.len(),
        b.end_times@.len() == b.recipients@.len(),
        forall|j: nat| j <= b.amounts@.len() ==> fits_i128(#[trigger] crate::laws::amount_sum(b.amounts@, j)),
        crate::laws::amount_sum(b.amounts@, b.amounts@.len()) <= s.admin_balance,
        fits_i128(s.admin_balance - crate::laws::amount_sum(b.amounts@, b.amounts@.len())),
        s.vault_count + b.recipients@.len() <= u64::MAX,
    ensures
        batch_outcome(s, b, full) is Ok,
        ({
            let (t, ids) = batch_outcome(s, b, full)->Ok_0;
            let n = b.recipients@.len();
            &&& ids.len() == n
            &&& forall|i: int| 0 <= i < n ==> #[trigger] ids[i] == s.vault_count + i + 1
            &&& t.vault_count == s.vault_count + n
            &&& t.admin_balance == s.admin_balance - crate::laws::amount_sum(b.amounts@, n)
            &&& forall|i: int|
                0 <= i < n ==> t.vaults.contains_key(#[trigger] ids[i]) && t.vaults[ids[i]] == (Vault {
                    owner: b.recipients@[i],
                    total_amount: b.amounts@[i],
                    released_amount: 0,
                    start_time: b.start_times@[i],
                    end_time: b.end_times@[i],
                    is_initialized: full,
                })
        }),
{
    let n = b.recipients@.len();
    lemma_checked_sum_when_fitting(b.amounts@, n);
    crate::laws::lemma_batch_vaults_lookup(s.vaults, s.vault_count, b, full, n);
    let (t, ids) = batch_outcome(s, b, full)->Ok_0;
    assert forall|i: int| 0 <= i < n implies t.vaults.contains_key(#[trigger] ids[i]) && t.vaults[ids[i]] == (Vault {
        owner: b.recipients@[i],
        total_amount: b.amounts@[i],
        released_amount: 0,
        start_time: b.start_times@[i],
        end_time: b.end_times@[i],
        is_initialized: full,
    }) by {
        let key = ids[i];
        assert(key == s.vault_count + i + 1);
        assert(batch_vaults(s.vaults, s.vault_count, b, full, n).contains_key(key));
    }
}

proof fn lemma_claims_prefix(vaults: Map<u64, Vault>, ids: Seq<u64>, amounts: Seq<i128>, ids2: Seq<u64>, amounts2: Seq<i128>, now: u64, k: nat)
    requires
        k <= ids.len(),
        k <= amounts.len(),
        k <= ids2.len(),
        k <= amounts2.len(),
        forall|j: int| 0 <= j < k ==> ids[j] == ids2[j] && amounts[j] == amounts2[j],
    ensures
        claims_upto(vaults, ids, amounts, now, k) == claims_upto(vaults, ids2, amounts2, now, k),
    decreases k,
{
    if k > 0 {
        lemma_claims_prefix(vaults, ids, amounts, ids2, amounts2, now, (k - 1) as nat);
    }
}

proof fn lemma_claims_keep_owners(vaults: Map<u64, Vault>, ids: Seq<u64>, amounts: Seq<i128>, now: u64, k: nat)
    requires
        claims_upto(vaults, ids, amounts, now, k) is Ok,
    ensures
        forall|key: u64|
            #[trigger] claims_upto(vaults, ids, amounts, now, k)->Ok_0.contains_key(key) <==> vaults.contains_key(key),
        forall|key: u64|
            vaults.contains_key(key) ==> #[trigger] claims_upto(vaults, ids, amounts, now, k)->Ok_0[key].owner
                == vaults[key].owner,
    decreases k,
{
    if k > 0 {
        lemma_claims_keep_owners(vaults, ids, amounts, now, (k - 1) as nat);
    }
}

/// A multi-vault claim with one more claim at the end does what the shorter
/// one does followed by that single claim: it succeeds exactly when both do,
/// ends in the same ledger, and owes the same payments plus the last one.
pub proof fn law_claim_all_extends(s: ContractView, ids: Seq<u64>, amounts: Seq<i128>, id: u64, amount: i128, now: u64)
    requires
        ids.len() == amounts.len(),
        ids.len() > 0,
    ensures
        ({
            let longer = claim_all_outcome(s, ids.push(id), amounts.push(amount), now);
            let shorter = claim_all_outcome(s, ids, amounts, now);
            &&& longer is Ok <==> (shorter is Ok && claim_outcome(shorter->Ok_0.0, id, amount, now) is Ok)
            &&& longer is Ok ==> longer->Ok_0.0 == claim_outcome(shorter->Ok_0.0, id, amount, now)->Ok_0.0
            &&& longer is Ok ==> longer->Ok_0.1 == shorter->Ok_0.1.push(claim_outcome(shorter->Ok_0.0, id, amount, now)->Ok_0.1)
        }),
{
    let n = ids.len();
    let ids2 = ids.push(id);
    let amounts2 = amounts.push(amount);
    lemma_claims_prefix(s.vaults, ids, amounts, ids2, amounts2, now, n);
    let shorter = claim_all_outcome(s, ids, amounts, now);
    if shorter is Ok {
        let m = claims_upto(s.vaults, ids, amounts, now, n)->Ok_0;
        lemma_claims_keep_owners(s.vaults, ids, amounts, now, n);
        let longer = claim_all_outcome(s, ids2, amounts2, now);
        assert(ids2[n as int] == id && amounts2[n as int] == amount);
        assert((claim_step(m, id, amount, now, VestingError::InsufficientVaultTokens) is Ok) <==> (claim_step(m, id, amount, now, VestingError::InsufficientTokens) is Ok));
        if longer is Ok {
            assert(m.contains_key(id));
            assert(longer->Ok_0.1 =~= shorter->Ok_0.1.push(claim_outcome(shorter->Ok_0.0, id, amount, now)->Ok_0.1));
        }
    }
}

/// Between its start and end times a vault has vested the proportional share
/// of its total, rounded down: `vested * duration <= total * elapsed <
/// (vested + 1) * duration`.
pub proof fn law_vesting_is_proportional(v: Vault, now: u64)
    requires
        v.start_time < now < v.end_time,
    ensures
        vested(v, now) * (v.end_time - v.start_time) <= v.total_amount * (now - v.start_time),
        v.total_amount * (now - v.start_time) < (vested(v, now) + 1) * (v.end_time - v.start_time),
{
    let d = (v.end_time - v.start_time) as int;
    let x = v.total_amount * (now - v.start_time);
    vstd::arithmetic::div_mod::lemma_fundamental_div_mod(x, d);
    vstd::arithmetic::div_mod::lemma_mod_bound(x, d);
    let q = x / d;
    assert(q * d == d * q) by (nonlinear_arith);
    assert((q + 1) * d == q * d + d) by (nonlinear_arith);
}

} // verus!
