//! What holds of the ledger across operations.

use vstd::prelude::*;
use crate::address::Address;
use crate::vault::{Vault, BatchCreateData, Payout, fresh_vault};
use crate::schedule::{vested, law_vesting_schedule};
use crate::model::{
    ContractView, initialized, proposal_outcome, acceptance_outcome, creation_outcome,
    metadata_outcome, claim_step, claim_outcome, claims_upto, claim_all_outcome, checked_sum,
    token_outcome, claimable_outcome,
    batch_vaults, batch_outcome, read_outcome, metadata_upto, listing_outcome, totals_upto,
    invariant_outcome, held_upto, conserved, fits_i128,
};

verus! {

/// The sum of the first `k` amounts.
pub open spec fn amount_sum(xs: Seq<i128>, k: nat) -> int
    decreases k,
{
    if k == 0 {
        0
    } else {
        amount_sum(xs, (k - 1) as nat) + xs[k - 1]
    }
}

proof fn lemma_checked_sum_is_sum(xs: Seq<i128>, k: nat)
    requires
        checked_sum(xs, k) is Some,
    ensures
        checked_sum(xs, k) == Some(amount_sum(xs, k)),
    decreases k,
{
    if k > 0 {
        lemma_checked_sum_is_sum(xs, (k - 1) as nat);
    }
}

/// Storing a vault above `k` does not change what the vaults `1 ..= k` hold.
proof fn lemma_held_insert_above(vaults: Map<u64, Vault>, id: u64, v: Vault, k: nat)
    requires
        k < id,
    ensures
        held_upto(vaults.insert(id, v), k) == held_upto(vaults, k),
    decreases k,
{
    if k > 0 {
        lemma_held_insert_above(vaults, id, v, (k - 1) as nat);
    }
}

/// Replacing a vault by one of the same total (or storing an empty one where
/// none was) does not change what any range of vaults holds.
proof fn lemma_held_insert_same_total(vaults: Map<u64, Vault>, id: u64, v: Vault, k: nat)
    requires
        v.total_amount == (if vaults.contains_key(id) {
            vaults[id].total_amount
        } else {
            0
        }),
    ensures
        held_upto(vaults.insert(id, v), k) == held_upto(vaults, k),
    decreases k,
{
    if k > 0 {
        lemma_held_insert_same_total(vaults, id, v, (k - 1) as nat);
    }
}

proof fn lemma_claims_keep_totals(vaults: Map<u64, Vault>, ids: Seq<u64>, amounts: Seq<i128>, now: u64, i: nat, k: nat)
    requires
        claims_upto(vaults, ids, amounts, now, i) is Ok,
    ensures
        held_upto(claims_upto(vaults, ids, amounts, now, i)->Ok_0, k) == held_upto(vaults, k),
    decreases i,
{
    if i > 0 {
        lemma_claims_keep_totals(vaults, ids, amounts, now, (i - 1) as nat, k);
        let m = claims_upto(vaults, ids, amounts, now, (i - 1) as nat)->Ok_0;
        let id = ids[i - 1];
        lemma_held_insert_same_total(
            m,
            id,
            Vault { released_amount: (m[id].released_amount + amounts[i - 1]) as i128, ..m[id] },
            k,
        );
    }
}

proof fn lemma_batch_adds_amounts(vaults: Map<u64, Vault>, base: u64, b: BatchCreateData, full: bool, k: nat)
    requires
        base + k <= u64::MAX,
        k <= b.recipients@.len(),
        k <= b.amounts@.len(),
        k <= b.start_times@.len(),
        k <= b.end_times@.len(),
    ensures
        held_upto(batch_vaults(vaults, base, b, full, k), (base + k) as nat)
            == held_upto(vaults, base as nat) + amount_sum(b.amounts@, k),
    decreases k,
{
    if k > 0 {
        let prev = batch_vaults(vaults, base, b, full, (k - 1) as nat);
        let id = (base + k) as u64;
        let v = fresh_vault(b.recipients@[k - 1], b.amounts@[k - 1], b.start_times@[k - 1], b.end_times@[k - 1], full);
        lemma_batch_adds_amounts(vaults, base, b, full, (k - 1) as nat);
        lemma_held_insert_above(prev, id, v, (base + k - 1) as nat);
    }
}

proof fn lemma_metadata_keeps_totals(s: ContractView, id: u64, k: nat)
    ensures
        held_upto(metadata_outcome(s, id).0.vaults, k) == held_upto(s.vaults, k),
{
    let v = if s.vaults.contains_key(id) {
        s.vaults[id]
    } else {
        crate::vault::empty_vault(s.address)
    };
    lemma_held_insert_same_total(s.vaults, id, Vault { is_initialized: true, ..v }, k);
}

proof fn lemma_metadata_upto_keeps(s: ContractView, ids: Seq<u64>, i: nat)
    ensures
        held_upto(metadata_upto(s, ids, i).vaults, metadata_upto(s, ids, i).vault_count as nat)
            == held_upto(s.vaults, s.vault_count as nat),
        metadata_upto(s, ids, i).initial_supply == s.initial_supply,
        metadata_upto(s, ids, i).admin_balance == s.admin_balance,
        metadata_upto(s, ids, i).vault_count == s.vault_count,
    decreases i,
{
    if i > 0 {
        let prev = metadata_upto(s, ids, (i - 1) as nat);
        lemma_metadata_upto_keeps(s, ids, (i - 1) as nat);
        lemma_metadata_keeps_totals(prev, ids[i - 1], s.vault_count as nat);
    }
}

pub(crate) proof fn lemma_totals_fit(s: ContractView, k: nat)
    requires
        totals_upto(s, k) is Some,
    ensures
        fits_i128(totals_upto(s, k)->Some_0.0),
        fits_i128(totals_upto(s, k)->Some_0.1),
    decreases k,
{
    if k > 0 {
        lemma_totals_fit(s, (k - 1) as nat);
    }
}

proof fn lemma_totals_are_held(s: ContractView, k: nat)
    requires
        totals_upto(s, k) is Some,
    ensures
        totals_upto(s, k)->Some_0.0 + totals_upto(s, k)->Some_0.1 == held_upto(s.vaults, k),
        fits_i128(totals_upto(s, k)->Some_0.0),
        fits_i128(totals_upto(s, k)->Some_0.1),
    decreases k,
{
    if k > 0 {
        lemma_totals_are_held(s, (k - 1) as nat);
    }
}

/// Initializing the ledger makes the supply fully accounted for: the whole
/// supply is with the administrator and no vault is numbered yet.
pub proof fn law_initialize_conserves(s: ContractView, admin: Address, initial_supply: i128)
    ensures
        conserved(initialized(s, admin, initial_supply)),
{
}

/// Creating a vault, fully or lazily, moves its amount from the
/// administrator's balance into the new vault: the supply stays accounted for.
pub proof fn law_creation_conserves(s: ContractView, owner: Address, amount: i128, start_time: u64, end_time: u64, full: bool)
    requires
        conserved(s),
        creation_outcome(s, owner, amount, start_time, end_time, full) is Ok,
    ensures
        conserved(creation_outcome(s, owner, amount, start_time, end_time, full)->Ok_0.0),
{
    let id = (s.vault_count + 1) as u64;
    lemma_held_insert_above(s.vaults, id, fresh_vault(owner, amount, start_time, end_time, full), s.vault_count as nat);
}

/// A batch whose amount list has one entry per recipient moves exactly the
/// batch's total from the administrator's balance into the new vaults.
pub proof fn law_batch_conserves(s: ContractView, b: BatchCreateData, full: bool)
    requires
        conserved(s),
        b.amounts@.len() == b.recipients@.len(),
        batch_outcome(s, b, full) is Ok,
    ensures
        conserved(batch_outcome(s, b, full)->Ok_0.0),
{
    let n = b.recipients@.len();
    lemma_checked_sum_is_sum(b.amounts@, n);
    lemma_batch_adds_amounts(s.vaults, s.vault_count, b, full, n);
}

/// A claim only moves tokens from locked to released within one vault.
pub proof fn law_claim_conserves(s: ContractView, vault_id: u64, claim_amount: i128, now: u64)
    requires
        conserved(s),
        claim_outcome(s, vault_id, claim_amount, now) is Ok,
    ensures
        conserved(claim_outcome(s, vault_id, claim_amount, now)->Ok_0.0),
{
    let v = s.vaults[vault_id];
    lemma_held_insert_same_total(
        s.vaults,
        vault_id,
        Vault { released_amount: (v.released_amount + claim_amount) as i128, ..v },
        s.vault_count as nat,
    );
}

/// A multi-vault claim keeps the supply accounted for.
pub proof fn law_claim_all_conserves(s: ContractView, vault_ids: Seq<u64>, claim_amounts: Seq<i128>, now: u64)
    requires
        conserved(s),
        claim_all_outcome(s, vault_ids, claim_amounts, now) is Ok,
    ensures
        conserved(claim_all_outcome(s, vault_ids, claim_amounts, now)->Ok_0.0),
{
    lemma_claims_keep_totals(s.vaults, vault_ids, claim_amounts, now, vault_ids.len(), s.vault_count as nat);
}

/// Setting up a vault's metadata, reading a vault and listing a user's vaults
/// keep the supply accounted for.
pub proof fn law_reads_conserve(s: ContractView, vault_id: u64, user: Address)
    requires
        conserved(s),
    ensures
        conserved(metadata_outcome(s, vault_id).0),
        conserved(read_outcome(s, vault_id).0),
        conserved(listing_outcome(s, user).0),
{
    lemma_metadata_keeps_totals(s, vault_id, s.vault_count as nat);
    let ids = listing_outcome(s, user).1;
    lemma_metadata_upto_keeps(s, ids, ids.len());
}

/// Proposing and accepting an administrator, and recording the token, move
/// no tokens.
pub proof fn law_admin_changes_conserve(s: ContractView, new_admin: Address, token: Address)
    requires
        conserved(s),
    ensures
        token_outcome(s, token) is Ok ==> conserved(token_outcome(s, token)->Ok_0),
        proposal_outcome(s, new_admin) is Ok ==> conserved(proposal_outcome(s, new_admin)->Ok_0),
        acceptance_outcome(s) is Ok ==> conserved(acceptance_outcome(s)->Ok_0),
{
}

/// `check_invariant`, when it can compute its sums, reports exactly whether
/// the supply is accounted for.
pub proof fn law_check_invariant_reports_conservation(s: ContractView)
    requires
        invariant_outcome(s) is Ok,
    ensures
        invariant_outcome(s) == Ok::<bool, crate::error::VestingError>(conserved(s)),
{
    lemma_totals_are_held(s, s.vault_count as nat);
}

/// A lazily created vault whose metadata is then set up ends exactly as the
/// same vault created fully: same ledger, same id.
pub proof fn law_lazy_then_metadata_is_full(s: ContractView, owner: Address, amount: i128, start_time: u64, end_time: u64)
    requires
        creation_outcome(s, owner, amount, start_time, end_time, false) is Ok,
    ensures
        creation_outcome(s, owner, amount, start_time, end_time, true) is Ok,
        ({
            let (lazy, id) = creation_outcome(s, owner, amount, start_time, end_time, false)->Ok_0;
            let (full, full_id) = creation_outcome(s, owner, amount, start_time, end_time, true)->Ok_0;
            &&& full_id == id
            &&& metadata_outcome(lazy, id) == (full, true)
        }),
{
    let (lazy, id) = creation_outcome(s, owner, amount, start_time, end_time, false)->Ok_0;
    let (full, _) = creation_outcome(s, owner, amount, start_time, end_time, true)->Ok_0;
    assert(metadata_outcome(lazy, id).0.vaults =~= full.vaults);
    assert(metadata_outcome(lazy, id).0 =~= full);
}

/// Setting up a vault's metadata twice is setting it up once: the second
/// call reports `false` and changes nothing.
pub proof fn law_metadata_idempotent(s: ContractView, vault_id: u64)
    ensures
        metadata_outcome(metadata_outcome(s, vault_id).0, vault_id) == (metadata_outcome(s, vault_id).0, false),
{
}

/// A vault read is always initialized, and reading it again gives the same
/// vault and changes nothing.
pub proof fn law_read_initialized_and_stable(s: ContractView, vault_id: u64)
    ensures
        read_outcome(s, vault_id).1.is_initialized,
        read_outcome(read_outcome(s, vault_id).0, vault_id) == read_outcome(s, vault_id),
{
}

/// A proposal of `new_admin` followed by its acceptance makes `new_admin`
/// the administrator and leaves no proposal.
pub proof fn law_admin_handover(s: ContractView, new_admin: Address)
    requires
        proposal_outcome(s, new_admin) is Ok,
    ensures
        acceptance_outcome(proposal_outcome(s, new_admin)->Ok_0) is Ok,
        ({
            let t = acceptance_outcome(proposal_outcome(s, new_admin)->Ok_0)->Ok_0;
            &&& t.admin == Some(new_admin)
            &&& t.proposed_admin is None
        }),
{
}

/// A successful claim owes the vault's owner exactly the claimed amount, in
/// the recorded token if any, releases exactly that amount from the vault, and
/// never releases more than has vested at the time of the claim.
pub proof fn law_claim_releases_exactly(s: ContractView, vault_id: u64, claim_amount: i128, now: u64)
    requires
        claim_outcome(s, vault_id, claim_amount, now) is Ok,
    ensures
        ({
            let (t, p) = claim_outcome(s, vault_id, claim_amount, now)->Ok_0;
            &&& p == Payout { token: s.token, recipient: s.vaults[vault_id].owner, amount: claim_amount }
            &&& claim_amount > 0
            &&& t.vaults[vault_id].released_amount == s.vaults[vault_id].released_amount + claim_amount
            &&& t.vaults[vault_id].released_amount <= vested(s.vaults[vault_id], now)
            &&& t.vaults[vault_id].total_amount == s.vaults[vault_id].total_amount
        }),
{
    law_vesting_schedule(s.vaults[vault_id], now, now);
}

/// What is claimable plus what was released is what has vested: for a vault
/// with a non-negative total it never exceeds the total, and from the vault's
/// end time on it is the whole total.
pub proof fn law_claimable_plus_released(s: ContractView, vault_id: u64, now: u64)
    requires
        claimable_outcome(s, vault_id, now) is Ok,
    ensures
        ({
            let v = s.vaults[vault_id];
            let c = claimable_outcome(s, vault_id, now)->Ok_0;
            &&& c + v.released_amount == vested(v, now)
            &&& v.total_amount >= 0 ==> c + v.released_amount <= v.total_amount
            &&& now >= v.end_time ==> c + v.released_amount == v.total_amount
        }),
{
    law_vesting_schedule(s.vaults[vault_id], now, now);
}

/// A multi-vault claim of one vault does what a single claim does; only the
/// refusal for a claim above what has vested is named differently.
pub proof fn law_claim_all_single(s: ContractView, vault_id: u64, claim_amount: i128, now: u64)
    ensures
        claim_all_outcome(s, seq![vault_id], seq![claim_amount], now) is Ok <==> claim_outcome(s, vault_id, claim_amount, now) is Ok,
        claim_outcome(s, vault_id, claim_amount, now) is Ok ==> {
            &&& claim_all_outcome(s, seq![vault_id], seq![claim_amount], now)->Ok_0.0
                == claim_outcome(s, vault_id, claim_amount, now)->Ok_0.0
            &&& claim_all_outcome(s, seq![vault_id], seq![claim_amount], now)->Ok_0.1
                == seq![claim_outcome(s, vault_id, claim_amount, now)->Ok_0.1]
        },
{
    let ids = seq![vault_id];
    let amounts = seq![claim_amount];
    assert(ids[0] == vault_id && amounts[0] == claim_amount);
    reveal_with_fuel(claims_upto, 2);
    assert(claims_upto(s.vaults, ids, amounts, now, 1) == claim_step(s.vaults, vault_id, claim_amount, now, crate::error::VestingError::InsufficientVaultTokens));
    if claim_outcome(s, vault_id, claim_amount, now) is Ok {
        assert(claim_all_outcome(s, ids, amounts, now)->Ok_0.1 =~= seq![claim_outcome(s, vault_id, claim_amount, now)->Ok_0.1]);
    }
}

/// No vault has released more than it holds: what it released is zero or
/// between zero and its total.
pub open spec fn releases_bounded(s: ContractView) -> bool {
    forall|id: u64| #[trigger] s.vaults.contains_key(id) ==> {
        let v = s.vaults[id];
        v.released_amount == 0 || 0 < v.released_amount <= v.total_amount
    }
}

proof fn lemma_claim_step_keeps_bounds(vaults: Map<u64, Vault>, id: u64, amount: i128, now: u64, short: crate::error::VestingError)
    requires
        claim_step(vaults, id, amount, now, short) is Ok,
        forall|k: u64| #[trigger] vaults.contains_key(k) ==> {
            let v = vaults[k];
            v.released_amount == 0 || 0 < v.released_amount <= v.total_amount
        },
    ensures
        forall|k: u64| #[trigger] claim_step(vaults, id, amount, now, short)->Ok_0.contains_key(k) ==> {
            let v = claim_step(vaults, id, amount, now, short)->Ok_0[k];
            v.released_amount == 0 || 0 < v.released_amount <= v.total_amount
        },
{
    let v = vaults[id];
    assert(vaults.contains_key(id));
    law_vesting_schedule(v, now, now);
}

proof fn lemma_claims_keep_bounds(vaults: Map<u64, Vault>, ids: Seq<u64>, amounts: Seq<i128>, now: u64, i: nat)
    requires
        claims_upto(vaults, ids, amounts, now, i) is Ok,
        forall|id: u64| #[trigger] vaults.contains_key(id) ==> {
            let v = vaults[id];
            v.released_amount == 0 || 0 < v.released_amount <= v.total_amount
        },
    ensures
        forall|id: u64| #[trigger] claims_upto(vaults, ids, amounts, now, i)->Ok_0.contains_key(id) ==> {
            let v = claims_upto(vaults, ids, amounts, now, i)->Ok_0[id];
            v.released_amount == 0 || 0 < v.released_amount <= v.total_amount
        },
    decreases i,
{
    if i > 0 {
        lemma_claims_keep_bounds(vaults, ids, amounts, now, (i - 1) as nat);
        let m = claims_upto(vaults, ids, amounts, now, (i - 1) as nat)->Ok_0;
        lemma_claim_step_keeps_bounds(m, ids[i - 1], amounts[i - 1], now, crate::error::VestingError::InsufficientVaultTokens);
    }
}

proof fn lemma_batch_keeps_bounds(vaults: Map<u64, Vault>, base: u64, b: BatchCreateData, full: bool, k: nat)
    requires
        forall|id: u64| #[trigger] vaults.contains_key(id) ==> {
            let v = vaults[id];
            v.released_amount == 0 || 0 < v.released_amount <= v.total_amount
        },
    ensures
        forall|id: u64| #[trigger] batch_vaults(vaults, base, b, full, k).contains_key(id) ==> {
            let v = batch_vaults(vaults, base, b, full, k)[id];
            v.released_amount == 0 || 0 < v.released_amount <= v.total_amount
        },
    decreases k,
{
    if k > 0 {
        lemma_batch_keeps_bounds(vaults, base, b, full, (k - 1) as nat);
    }
}

proof fn lemma_metadata_upto_keeps_bounds(s: ContractView, ids: Seq<u64>, i: nat)
    requires
        releases_bounded(s),
    ensures
        releases_bounded(metadata_upto(s, ids, i)),
    decreases i,
{
    if i > 0 {
        lemma_metadata_upto_keeps_bounds(s, ids, (i - 1) as nat);
    }
}

/// Every operation keeps every vault's released amount within its total.
pub proof fn law_releases_stay_bounded(
    s: ContractView,
    owner: Address,
    amount: i128,
    start_time: u64,
    end_time: u64,
    full: bool,
    vault_id: u64,
    vault_ids: Seq<u64>,
    claim_amounts: Seq<i128>,
    b: BatchCreateData,
    user: Address,
    new_admin: Address,
    now: u64,
)
    requires
        releases_bounded(s),
    ensures
        releases_bounded(initialized(s, new_admin, amount)),
        token_outcome(s, new_admin) is Ok ==> releases_bounded(token_outcome(s, new_admin)->Ok_0),
        proposal_outcome(s, new_admin) is Ok ==> releases_bounded(proposal_outcome(s, new_admin)->Ok_0),
        acceptance_outcome(s) is Ok ==> releases_bounded(acceptance_outcome(s)->Ok_0),
        creation_outcome(s, owner, amount, start_time, end_time, full) is Ok ==> releases_bounded(
            creation_outcome(s, owner, amount, start_time, end_time, full)->Ok_0.0,
        ),
        releases_bounded(metadata_outcome(s, vault_id).0),
        releases_bounded(read_outcome(s, vault_id).0),
        releases_bounded(listing_outcome(s, user).0),
        claim_outcome(s, vault_id, amount, now) is Ok ==> releases_bounded(claim_outcome(s, vault_id, amount, now)->Ok_0.0),
        claim_all_outcome(s, vault_ids, claim_amounts, now) is Ok ==> releases_bounded(
            claim_all_outcome(s, vault_ids, claim_amounts, now)->Ok_0.0,
        ),
        batch_outcome(s, b, full) is Ok ==> releases_bounded(batch_outcome(s, b, full)->Ok_0.0),
{
    if claim_all_outcome(s, vault_ids, claim_amounts, now) is Ok {
        lemma_claims_keep_bounds(s.vaults, vault_ids, claim_amounts, now, vault_ids.len());
    }
    if claim_outcome(s, vault_id, amount, now) is Ok {
        lemma_claim_step_keeps_bounds(s.vaults, vault_id, amount, now, crate::error::VestingError::InsufficientTokens);
    }
    lemma_batch_keeps_bounds(s.vaults, s.vault_count, b, full, b.recipients@.len());
    let ids = listing_outcome(s, user).1;
    lemma_metadata_upto_keeps_bounds(s, ids, ids.len());
}

/// The `i`-th vault of a batch, created fully or lazily.
pub open spec fn batch_entry(b: BatchCreateData, i: int, full: bool) -> Vault {
    fresh_vault(b.recipients@[i], b.amounts@[i], b.start_times@[i], b.end_times@[i], full)
}

pub(crate) proof fn lemma_batch_vaults_lookup(vaults: Map<u64, Vault>, base: u64, b: BatchCreateData, full: bool, k: nat)
    requires
        base + k <= u64::MAX,
    ensures
        forall|key: u64|
            #[trigger] batch_vaults(vaults, base, b, full, k).contains_key(key) <==> (base < key <= base + k
                || vaults.contains_key(key)),
        forall|key: u64|
            #[trigger] batch_vaults(vaults, base, b, full, k).contains_key(key) ==> batch_vaults(vaults, base, b, full, k)[key]
                == if base < key <= base + k {
                batch_entry(b, key - base - 1, full)
            } else {
                vaults[key]
            },
    decreases k,
{
    if k > 0 {
        lemma_batch_vaults_lookup(vaults, base, b, full, (k - 1) as nat);
    }
}

proof fn lemma_lazy_metadata_prefix(s: ContractView, b: BatchCreateData, j: nat)
    requires
        batch_outcome(s, b, false) is Ok,
        j <= b.recipients@.len(),
    ensures
        ({
            let (lazy, ids) = batch_outcome(s, b, false)->Ok_0;
            metadata_upto(lazy, ids, j) == (ContractView {
                vaults: batch_vaults(lazy.vaults, s.vault_count, b, true, j),
                user_vaults: crate::model::batch_lists(s.user_vaults, s.vault_count, b.recipients@, j),
                ..lazy
            })
        }),
    decreases j,
{
    let (lazy, ids) = batch_outcome(s, b, false)->Ok_0;
    let base = s.vault_count;
    let n = b.recipients@.len();
    if j > 0 {
        let k = (j - 1) as nat;
        lemma_lazy_metadata_prefix(s, b, k);
        lemma_batch_vaults_lookup(s.vaults, base, b, false, n);
        lemma_batch_vaults_lookup(lazy.vaults, base, b, true, k);
        let cur = metadata_upto(lazy, ids, k);
        let id = (base + k + 1) as u64;
        assert(ids[k as int] == id);
        assert(cur.vaults.contains_key(id));
        assert(cur.vaults[id] == batch_entry(b, k as int, false));
        assert(Vault { is_initialized: true, ..batch_entry(b, k as int, false) } == batch_entry(b, k as int, true));
        assert(metadata_upto(lazy, ids, j) =~= (ContractView {
            vaults: batch_vaults(lazy.vaults, base, b, true, j),
            user_vaults: crate::model::batch_lists(s.user_vaults, base, b.recipients@, j),
            ..lazy
        }));
    }
}

/// A lazy batch whose vaults then have their metadata set up, in order, ends
/// exactly as the same batch created fully.
pub proof fn law_lazy_batch_then_metadata_is_full(s: ContractView, b: BatchCreateData)
    requires
        batch_outcome(s, b, false) is Ok,
    ensures
        batch_outcome(s, b, true) is Ok,
        ({
            let (lazy, ids) = batch_outcome(s, b, false)->Ok_0;
            let (full, full_ids) = batch_outcome(s, b, true)->Ok_0;
            &&& full_ids == ids
            &&& metadata_upto(lazy, ids, ids.len()) == full
        }),
{
    let (lazy, ids) = batch_outcome(s, b, false)->Ok_0;
    let (full, _) = batch_outcome(s, b, true)->Ok_0;
    let base = s.vault_count;
    let n = b.recipients@.len();
    lemma_lazy_metadata_prefix(s, b, n);
    lemma_batch_vaults_lookup(s.vaults, base, b, false, n);
    lemma_batch_vaults_lookup(lazy.vaults, base, b, true, n);
    lemma_batch_vaults_lookup(s.vaults, base, b, true, n);
    assert(batch_vaults(lazy.vaults, base, b, true, n) =~= full.vaults);
    assert(metadata_upto(lazy, ids, ids.len()) =~= full);
}

/// The vaults obtained by storing the entries one after another into an
/// empty table.
pub open spec fn vaults_from_entries(entries: Seq<(u64, Vault)>, k: nat) -> Map<u64, Vault>
    decreases k,
{
    if k == 0 {
        Map::empty()
    } else {
        vaults_from_entries(entries, (k - 1) as nat).insert(entries[k - 1].0, entries[k - 1].1)
    }
}

/// `m` after appending the first `j` ids, in order, to the list of `owner`.
pub open spec fn appended_each(m: Map<Address, Seq<u64>>, owner: Address, ids: Seq<u64>, j: nat) -> Map<Address, Seq<u64>>
    decreases j,
{
    if j == 0 {
        m
    } else {
        crate::user_index::with_appended(appended_each(m, owner, ids, (j - 1) as nat), owner, ids[j - 1])
    }
}

/// The lists obtained by appending every id of every entry, in order, to an
/// empty index.
pub open spec fn lists_from_entries(entries: Seq<(Address, Seq<u64>)>, k: nat) -> Map<Address, Seq<u64>>
    decreases k,
{
    if k == 0 {
        Map::empty()
    } else {
        appended_each(lists_from_entries(entries, (k - 1) as nat), entries[k - 1].0, entries[k - 1].1, entries[k - 1].1.len())
    }
}

proof fn lemma_vaults_from_entries(entries: Seq<(u64, Vault)>, k: nat)
    requires
        k <= entries.len(),
        forall|i: int, j: int| 0 <= i < j < entries.len() ==> #[trigger] entries[i].0 != #[trigger] entries[j].0,
    ensures
        forall|key: u64|
            #[trigger] vaults_from_entries(entries, k).contains_key(key) <==> exists|i: int| 0 <= i < k && entries[i].0 == key,
        forall|i: int| 0 <= i < k ==> #[trigger] vaults_from_entries(entries, k)[entries[i].0] == entries[i].1,
    decreases k,
{
    if k > 0 {
        lemma_vaults_from_entries(entries, (k - 1) as nat);
        let prev = vaults_from_entries(entries, (k - 1) as nat);
        let m = vaults_from_entries(entries, k);
        assert forall|key: u64| #[trigger] m.contains_key(key) <==> exists|i: int| 0 <= i < k && entries[i].0 == key by {
            if key != entries[k - 1].0 {
                if m.contains_key(key) {
                    assert(prev.contains_key(key));
                    let i = choose|i: int| 0 <= i < k - 1 && entries[i].0 == key;
                    assert(0 <= i < k && entries[i].0 == key);
                }
                if exists|i: int| 0 <= i < k && entries[i].0 == key {
                    let i = choose|i: int| 0 <= i < k && entries[i].0 == key;
                    assert(0 <= i < k - 1 && entries[i].0 == key);
                    assert(prev.contains_key(key));
                }
            } else {
                assert(entries[k - 1].0 == key);
            }
        }
        assert forall|i: int| 0 <= i < k implies #[trigger] m[entries[i].0] == entries[i].1 by {
            if i < k - 1 {
                assert(entries[i].0 != entries[k - 1].0);
                assert(vaults_from_entries(entries, (k - 1) as nat)[entries[i].0] == entries[i].1);
            }
        }
    }
}

proof fn lemma_appended_each(m: Map<Address, Seq<u64>>, owner: Address, ids: Seq<u64>, j: nat)
    requires
        0 < j <= ids.len(),
    ensures
        appended_each(m, owner, ids, j) == m.insert(owner, crate::user_index::ids_of(m, owner) + ids.take(j as int)),
    decreases j,
{
    if j == 1 {
        assert(appended_each(m, owner, ids, 0) == m);
        assert(crate::user_index::ids_of(m, owner) + ids.take(1) =~= crate::user_index::ids_of(m, owner).push(ids[0]));
    } else {
        lemma_appended_each(m, owner, ids, (j - 1) as nat);
        assert(crate::user_index::ids_of(m, owner) + ids.take(j as int) =~= (crate::user_index::ids_of(m, owner)
            + ids.take(j - 1)).push(ids[j - 1]));
        assert(appended_each(m, owner, ids, j) =~= m.insert(owner, crate::user_index::ids_of(m, owner) + ids.take(j as int)));
    }
}

proof fn lemma_lists_from_entries(entries: Seq<(Address, Seq<u64>)>, k: nat)
    requires
        k <= entries.len(),
        forall|i: int, j: int| 0 <= i < j < entries.len() ==> #[trigger] entries[i].0 != #[trigger] entries[j].0,
        forall|i: int| 0 <= i < entries.len() ==> #[trigger] entries[i].1.len() > 0,
    ensures
        forall|a: Address|
            #[trigger] lists_from_entries(entries, k).contains_key(a) <==> exists|i: int| 0 <= i < k && entries[i].0 == a,
        forall|i: int| 0 <= i < k ==> #[trigger] lists_from_entries(entries, k)[entries[i].0] == entries[i].1,
    decreases k,
{
    if k > 0 {
        lemma_lists_from_entries(entries, (k - 1) as nat);
        let prev = lists_from_entries(entries, (k - 1) as nat);
        let e = entries[k - 1];
        lemma_appended_each(prev, e.0, e.1, e.1.len());
        assert(!prev.contains_key(e.0)) by {
            if prev.contains_key(e.0) {
                let i = choose|i: int| 0 <= i < k - 1 && entries[i].0 == e.0;
                assert(entries[i].0 != entries[k - 1].0);
            }
        }
        assert(crate::user_index::ids_of(prev, e.0) + e.1.take(e.1.len() as int) =~= e.1);
        let m = lists_from_entries(entries, k);
        assert forall|a: Address| #[trigger] m.contains_key(a) <==> exists|i: int| 0 <= i < k && entries[i].0 == a by {
            if a != e.0 {
                if m.contains_key(a) {
                    assert(prev.contains_key(a));
                    let i = choose|i: int| 0 <= i < k - 1 && entries[i].0 == a;
                    assert(0 <= i < k && entries[i].0 == a);
                }
                if exists|i: int| 0 <= i < k && entries[i].0 == a {
                    let i = choose|i: int| 0 <= i < k && entries[i].0 == a;
                    assert(0 <= i < k - 1 && entries[i].0 == a);
                    assert(prev.contains_key(a));
                }
            } else {
                assert(entries[k - 1].0 == a);
            }
        }
        assert forall|i: int| 0 <= i < k implies #[trigger] m[entries[i].0] == entries[i].1 by {
            if i < k - 1 {
                assert(entries[i].0 != entries[k - 1].0);
                assert(prev[entries[i].0] == entries[i].1);
            }
        }
    }
}

/// Storing every exported vault, and appending every id of every exported
/// (non-empty) list, into an empty ledger rebuilds exactly the vaults and the
/// lists that were exported.
pub proof fn law_entries_rebuild(
    vaults: Map<u64, Vault>,
    vault_entries: Seq<(u64, Vault)>,
    lists: Map<Address, Seq<u64>>,
    list_entries: Seq<(Address, Seq<u64>)>,
)
    requires
        forall|i: int|
            0 <= i < vault_entries.len() ==> vaults.contains_key(#[trigger] vault_entries[i].0) && vaults[vault_entries[i].0]
                == vault_entries[i].1,
        forall|k: u64| #[trigger] vaults.contains_key(k) ==> exists|i: int| 0 <= i < vault_entries.len() && vault_entries[i].0 == k,
        forall|i: int, j: int| 0 <= i < j < vault_entries.len() ==> #[trigger] vault_entries[i].0 != #[trigger] vault_entries[j].0,
        forall|i: int|
            0 <= i < list_entries.len() ==> lists.contains_key(#[trigger] list_entries[i].0) && lists[list_entries[i].0]
                == list_entries[i].1,
        forall|a: Address| #[trigger] lists.contains_key(a) ==> exists|i: int| 0 <= i < list_entries.len() && list_entries[i].0 == a,
        forall|i: int, j: int| 0 <= i < j < list_entries.len() ==> #[trigger] list_entries[i].0 != #[trigger] list_entries[j].0,
        forall|i: int| 0 <= i < list_entries.len() ==> #[trigger] list_entries[i].1.len() > 0,
    ensures
        vaults_from_entries(vault_entries, vault_entries.len()) == vaults,
        lists_from_entries(list_entries, list_entries.len()) == lists,
{
    lemma_vaults_from_entries(vault_entries, vault_entries.len());
    lemma_lists_from_entries(list_entries, list_entries.len());
    let rv = vaults_from_entries(vault_entries, vault_entries.len());
    assert forall|k: u64| #[trigger] rv.contains_key(k) <==> vaults.contains_key(k) by {
        if vaults.contains_key(k) {
            let i = choose|i: int| 0 <= i < vault_entries.len() && vault_entries[i].0 == k;
        }
    }
    assert forall|k: u64| #[trigger] rv.contains_key(k) implies rv[k] == vaults[k] by {
        let i = choose|i: int| 0 <= i < vault_entries.len() && vault_entries[i].0 == k;
    }
    assert(rv =~= vaults);
    let rl = lists_from_entries(list_entries, list_entries.len());
    assert forall|a: Address| #[trigger] rl.contains_key(a) <==> lists.contains_key(a) by {
        if lists.contains_key(a) {
            let i = choose|i: int| 0 <= i < list_entries.len() && list_entries[i].0 == a;
        }
    }
    assert forall|a: Address| #[trigger] rl.contains_key(a) implies rl[a] == lists[a] by {
        let i = choose|i: int| 0 <= i < list_entries.len() && list_entries[i].0 == a;
    }
    assert(rl =~= lists);
}

} // verus!
