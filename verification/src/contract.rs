//! The ledger and its operations.

use vstd::prelude::*;
use crate::address::Address;
use crate::error::VestingError;
use crate::model::{
    ContractView, admin_refusal, initialized, proposal_outcome, acceptance_outcome, creation_outcome,
    stored_or_empty, metadata_outcome, claim_step, claim_outcome, claims_upto, claim_all_outcome,
    token_outcome, claimable_outcome, payouts, checked_sum, batch_vaults, batch_lists, complete_entries, id_range, batch_outcome,
    read_outcome, metadata_upto, listing_outcome, totals_upto, state_outcome, invariant_outcome,
    lemma_claims_refusal_persists, lemma_checked_sum_overflow_persists,
    lemma_totals_overflow_persists,
};
use crate::user_index::UserVaultIndex;
use crate::vault_table::VaultTable;
use crate::request::{Request, authorizer};
use crate::vault::{Vault, BatchCreateData, Payout};

verus! {

/// A vesting ledger: the storage of one deployed contract, together with the
/// contract's own address.
pub struct VestingContract {
    address: Address,
    token: Option<Address>,
    initial_supply: i128,
    admin_balance: i128,
    admin: Option<Address>,
    proposed_admin: Option<Address>,
    vault_count: u64,
    vaults: VaultTable,
    user_vaults: UserVaultIndex,
}

impl View for VestingContract {
    type V = ContractView;

    closed spec fn view(&self) -> ContractView {
        ContractView {
            address: self.address,
            token: self.token,
            initial_supply: self.initial_supply,
            admin_balance: self.admin_balance,
            admin: self.admin,
            proposed_admin: self.proposed_admin,
            vault_count: self.vault_count,
            vaults: self.vaults@,
            user_vaults: self.user_vaults@,
        }
    }
}

impl VestingContract {
    /// The empty storage of a contract deployed at `address`: nothing
    /// recorded, every amount and counter at zero.
    pub fn new(address: Address) -> (c: VestingContract)
        ensures
            c@ == (ContractView {
                address,
                token: None,
                initial_supply: 0,
                admin_balance: 0,
                admin: None,
                proposed_admin: None,
                vault_count: 0,
                vaults: Map::empty(),
                user_vaults: Map::empty(),
            }),
    {
        VestingContract {
            address,
            token: None,
            initial_supply: 0,
            admin_balance: 0,
            admin: None,
            proposed_admin: None,
            vault_count: 0,
            vaults: VaultTable::new(),
            user_vaults: UserVaultIndex::new(),
        }
    }

    /// Records the administrator and the initial supply, which is also the
    /// administrator's balance, and restarts the vault numbering.
    pub fn initialize(&mut self, admin: Address, initial_supply: i128)
        ensures
            final(self)@ == initialized(old(self)@, admin, initial_supply),
    {
        self.initial_supply = initial_supply;
        self.admin_balance = initial_supply;
        self.admin = Some(admin);
        self.vault_count = 0;
    }

    /// The address whose authorization `request` needs, if any.
    pub fn required_authorization(&self, request: Request) -> (r: Option<Address>)
        ensures
            r == authorizer(self@, request),
    {
        match request {
            Request::ProposeNewAdmin | Request::SetToken | Request::CreateVault | Request::CreateBatch => self.admin,
            Request::AcceptOwnership => self.proposed_admin,
            _ => None,
        }
    }

    /// Refuses unless an administrator is recorded.
    fn require_admin(&self) -> (r: Result<(), VestingError>)
        ensures
            r == match admin_refusal(self@) {
                Some(e) => Err(e),
                None => Ok(()),
            },
    {
        match self.admin {
            None => Err(VestingError::AdminNotSet),
            Some(_) => Ok(()),
        }
    }

    /// Proposes a new administrator.
    pub fn propose_new_admin(&mut self, new_admin: Address) -> (r: Result<(), VestingError>)
        ensures
            match proposal_outcome(old(self)@, new_admin) {
                Ok(t) => r is Ok && final(self)@ == t,
                Err(e) => r == Err::<(), VestingError>(e) && final(self)@ == old(self)@,
            },
    {
        self.require_admin()?;
        self.proposed_admin = Some(new_admin);
        Ok(())
    }

    /// Makes the proposed administrator the administrator and clears the
    /// proposal.
    pub fn accept_ownership(&mut self) -> (r: Result<(), VestingError>)
        ensures
            match acceptance_outcome(old(self)@) {
                Ok(t) => r is Ok && final(self)@ == t,
                Err(e) => r == Err::<(), VestingError>(e) && final(self)@ == old(self)@,
            },
    {
        match self.proposed_admin {
            None => Err(VestingError::NoProposedAdmin),
            Some(p) => {
                self.admin = Some(p);
                self.proposed_admin = None;
                Ok(())
            },
        }
    }

    /// Records the token in which claims are paid.
    pub fn set_token(&mut self, token: Address) -> (r: Result<(), VestingError>)
        ensures
            match token_outcome(old(self)@, token) {
                Ok(t) => r is Ok && final(self)@ == t,
                Err(e) => r == Err::<(), VestingError>(e) && final(self)@ == old(self)@,
            },
    {
        self.require_admin()?;
        self.token = Some(token);
        Ok(())
    }

    /// The token in which claims are paid, if recorded.
    pub fn get_token(&self) -> (r: Option<Address>)
        ensures
            r == self@.token,
    {
        self.token
    }

    /// The administrator.
    pub fn get_admin(&self) -> (r: Result<Address, VestingError>)
        ensures
            r == match self@.admin {
                Some(a) => Ok(a),
                None => Err(VestingError::AdminNotSet),
            },
    {
        match self.admin {
            Some(a) => Ok(a),
            None => Err(VestingError::AdminNotSet),
        }
    }

    /// The proposed administrator, if any.
    pub fn get_proposed_admin(&self) -> (r: Option<Address>)
        ensures
            r == self@.proposed_admin,
    {
        self.proposed_admin
    }

    fn create_vault(&mut self, owner: Address, amount: i128, start_time: u64, end_time: u64, full: bool) -> (r: Result<u64, VestingError>)
        ensures
            match creation_outcome(old(self)@, owner, amount, start_time, end_time, full) {
                Ok((t, id)) => r == Ok::<u64, VestingError>(id) && final(self)@ == t,
                Err(e) => r == Err::<u64, VestingError>(e) && final(self)@ == old(self)@,
            },
    {
        self.require_admin()?;
        if self.vault_count == u64::MAX {
            return Err(VestingError::Overflow);
        }
        let id = self.vault_count + 1;
        if self.admin_balance < amount {
            return Err(VestingError::InsufficientAdminBalance);
        }
        let balance = match self.admin_balance.checked_sub(amount) {
            Some(b) => b,
            None => {
                return Err(VestingError::Overflow);
            },
        };
        self.admin_balance = balance;
        self.vaults.insert(id, Vault::fresh(owner, amount, start_time, end_time, full));
        if full {
            self.user_vaults.push(owner, id);
        }
        self.vault_count = id;
        Ok(id)
    }

    /// Creates an initialized vault of `amount` for `owner`, charged to the
    /// administrator's balance and listed under the owner; returns its id,
    /// the next number in sequence.
    pub fn create_vault_full(&mut self, owner: Address, amount: i128, start_time: u64, end_time: u64) -> (r: Result<u64, VestingError>)
        ensures
            match creation_outcome(old(self)@, owner, amount, start_time, end_time, true) {
                Ok((t, id)) => r == Ok::<u64, VestingError>(id) && final(self)@ == t,
                Err(e) => r == Err::<u64, VestingError>(e) && final(self)@ == old(self)@,
            },
    {
        self.create_vault(owner, amount, start_time, end_time, true)
    }

    /// Creates a vault of `amount` for `owner` as `create_vault_full` does,
    /// but uninitialized and not yet listed under its owner.
    pub fn create_vault_lazy(&mut self, owner: Address, amount: i128, start_time: u64, end_time: u64) -> (r: Result<u64, VestingError>)
        ensures
            match creation_outcome(old(self)@, owner, amount, start_time, end_time, false) {
                Ok((t, id)) => r == Ok::<u64, VestingError>(id) && final(self)@ == t,
                Err(e) => r == Err::<u64, VestingError>(e) && final(self)@ == old(self)@,
            },
    {
        self.create_vault(owner, amount, start_time, end_time, false)
    }

    /// The vault stored under `id`, or the empty vault of the contract.
    fn stored_or_empty(&self, id: u64) -> (v: Vault)
        ensures
            v == stored_or_empty(self@, id),
    {
        match self.vaults.get(id) {
            Some(v) => v,
            None => Vault::empty(self.address),
        }
    }

    /// Sets up the metadata of vault `vault_id`: if it is not initialized
    /// (a missing vault counts as an empty one of the contract), it becomes
    /// initialized and is listed under its owner, and the result is `true`.
    pub fn initialize_vault_metadata(&mut self, vault_id: u64) -> (r: bool)
        ensures
            final(self)@ == metadata_outcome(old(self)@, vault_id).0,
            r == metadata_outcome(old(self)@, vault_id).1,
    {
        let v = self.stored_or_empty(vault_id);
        if !v.is_initialized {
            let updated = Vault { is_initialized: true, ..v };
            self.vaults.insert(vault_id, updated);
            self.user_vaults.push(updated.owner, vault_id);
            true
        } else {
            false
        }
    }

    /// One claim at time `now` against the vaults; `short` is the refusal
    /// for a claim above what has vested and is not yet released. Gives the
    /// vault's owner.
    fn claim_from(vaults: &mut VaultTable, id: u64, amount: i128, now: u64, short: VestingError) -> (r: Result<Address, VestingError>)
        ensures
            match claim_step(old(vaults)@, id, amount, now, short) {
                Ok(m) => r == Ok::<Address, VestingError>(old(vaults)@[id].owner) && final(vaults)@ == m,
                Err(e) => r == Err::<Address, VestingError>(e) && final(vaults)@ == old(vaults)@,
            },
    {
        let v = match vaults.get(id) {
            Some(v) => v,
            None => {
                return Err(VestingError::VaultNotFound);
            },
        };
        if !v.is_initialized {
            return Err(VestingError::VaultNotInitialized);
        }
        if amount <= 0 {
            return Err(VestingError::NonPositiveClaim);
        }
        let available = match v.vested_at(now).checked_sub(v.released_amount) {
            Some(a) => a,
            None => {
                return Err(VestingError::Overflow);
            },
        };
        if amount > available {
            return Err(short);
        }
        let released = v.released_amount + amount;
        vaults.insert(id, Vault { released_amount: released, ..v });
        Ok(v.owner)
    }

    /// Claims `claim_amount` from vault `vault_id` at time `now`: the vault
    /// must exist, be initialized and have at least that much vested by `now`
    /// (linearly between its start and end times) and not yet released.
    /// Returns the payment owed to the vault's owner, in the recorded token;
    /// with no token recorded the claim is booked and the payment names no
    /// token.
    pub fn claim_tokens(&mut self, vault_id: u64, claim_amount: i128, now: u64) -> (r: Result<Payout, VestingError>)
        ensures
            match claim_outcome(old(self)@, vault_id, claim_amount, now) {
                Ok((t, p)) => r == Ok::<Payout, VestingError>(p) && final(self)@ == t,
                Err(e) => r == Err::<Payout, VestingError>(e) && final(self)@ == old(self)@,
            },
    {
        let token = self.token;
        let recipient = Self::claim_from(&mut self.vaults, vault_id, claim_amount, now, VestingError::InsufficientTokens)?;
        Ok(Payout { token, recipient, amount: claim_amount })
    }

    /// Claims `claim_amounts[i]` from vault `vault_ids[i]` at time `now` for
    /// each `i`, in order, each limited as in `claim_tokens` by what has
    /// vested; all claims are made or, if one is refused, none. Returns the
    /// payments owed, one per claim, in the recorded token if any.
    pub fn claim_all(&mut self, vault_ids: Vec<u64>, claim_amounts: Vec<i128>, now: u64) -> (r: Result<Vec<Payout>, VestingError>)
        ensures
            match claim_all_outcome(old(self)@, vault_ids@, claim_amounts@, now) {
                Ok((t, p)) => r matches Ok(v) && v@ == p && final(self)@ == t,
                Err(e) => r matches Err(x) && x == e && final(self)@ == old(self)@,
            },
    {
        let n = vault_ids.len();
        if n != claim_amounts.len() {
            return Err(VestingError::LengthMismatch);
        }
        if n == 0 {
            return Err(VestingError::EmptyClaim);
        }
        let token = self.token;
        let ghost start = self.vaults@;
        let mut vaults = self.vaults.duplicate();
        let mut results: Vec<Payout> = Vec::new();
        let mut i: usize = 0;
        while i < n
            invariant
                n == vault_ids@.len(),
                n == claim_amounts@.len(),
                i <= n,
                self@ == old(self)@,
                start == old(self)@.vaults,
                old(self)@.token == token,
                claims_upto(start, vault_ids@, claim_amounts@, now, i as nat) == Ok::<Map<u64, Vault>, VestingError>(vaults@),
                forall|k: u64| #[trigger] vaults@.contains_key(k) <==> start.contains_key(k),
                forall|k: u64| start.contains_key(k) ==> #[trigger] vaults@[k].owner == start[k].owner,
                results@ == payouts(start, token, vault_ids@, claim_amounts@).take(i as int),
            decreases n - i,
        {
            let ghost before = vaults@;
            let step = Self::claim_from(&mut vaults, vault_ids[i], claim_amounts[i], now, VestingError::InsufficientVaultTokens);
            let recipient = match step {
                Err(e) => {
                    proof {
                        assert(claims_upto(start, vault_ids@, claim_amounts@, now, (i + 1) as nat)
                            == claim_step(before, vault_ids@[i as int], claim_amounts@[i as int], now, VestingError::InsufficientVaultTokens));
                        lemma_claims_refusal_persists(start, vault_ids@, claim_amounts@, now, (i + 1) as nat, n as nat);
                    }
                    return Err(e);
                },
                Ok(owner) => owner,
            };
            results.push(Payout { token, recipient, amount: claim_amounts[i] });
            assert(results@ =~= payouts(start, token, vault_ids@, claim_amounts@).take(i + 1));
            i = i + 1;
        }
        assert(results@ =~= payouts(start, token, vault_ids@, claim_amounts@));
        self.vaults = vaults;
        Ok(results)
    }

    /// What can still be claimed from vault `vault_id` at time `now`: what
    /// has vested less what was released.
    pub fn get_claimable_amount(&self, vault_id: u64, now: u64) -> (r: Result<i128, VestingError>)
        ensures
            r == claimable_outcome(self@, vault_id, now),
    {
        let v = match self.vaults.get(vault_id) {
            Some(v) => v,
            None => {
                return Err(VestingError::VaultNotFound);
            },
        };
        match v.vested_at(now).checked_sub(v.released_amount) {
            Some(a) => Ok(a),
            None => Err(VestingError::Overflow),
        }
    }

    fn create_batch(&mut self, batch: &BatchCreateData, full: bool) -> (r: Result<Vec<u64>, VestingError>)
        ensures
            match batch_outcome(old(self)@, *batch, full) {
                Ok((t, ids)) => r matches Ok(v) && v@ == ids && final(self)@ == t,
                Err(e) => r matches Err(x) && x == e && final(self)@ == old(self)@,
            },
    {
        self.require_admin()?;
        let initial = self.vault_count;
        let mut total: i128 = 0;
        let na = batch.amounts.len();
        let mut i: usize = 0;
        while i < na
            invariant
                na == batch.amounts@.len(),
                i <= na,
                self@ == old(self)@,
                admin_refusal(self@) is None,
                initial == self@.vault_count,
                checked_sum(batch.amounts@, i as nat) == Some(total as int),
            decreases na - i,
        {
            total = match total.checked_add(batch.amounts[i]) {
                Some(t) => t,
                None => {
                    proof {
                        lemma_checked_sum_overflow_persists(batch.amounts@, (i + 1) as nat, na as nat);
                    }
                    return Err(VestingError::Overflow);
                },
            };
            i = i + 1;
        }
        if self.admin_balance < total {
            return Err(VestingError::InsufficientBatchBalance);
        }
        let balance = match self.admin_balance.checked_sub(total) {
            Some(b) => b,
            None => {
                return Err(VestingError::Overflow);
            },
        };
        let n = batch.recipients.len();
        let ns = batch.start_times.len();
        let ne = batch.end_times.len();
        let m = if na <= ns && na <= ne {
            na
        } else if ns <= ne {
            ns
        } else {
            ne
        };
        assert(m == complete_entries(*batch));
        if n > m && (m as u64) < u64::MAX - initial {
            return Err(VestingError::MissingBatchEntry);
        }
        if n as u64 > u64::MAX - initial {
            return Err(VestingError::Overflow);
        }
        self.admin_balance = balance;
        let ghost vaults0 = self.vaults@;
        let ghost lists0 = self.user_vaults@;
        let ghost mid = self@;
        let mut ids: Vec<u64> = Vec::new();
        let mut k: usize = 0;
        while k < n
            invariant
                n == batch.recipients@.len(),
                n <= m,
                m == complete_entries(*batch),
                initial + n <= u64::MAX,
                k <= n,
                self@ == (ContractView {
                    vaults: batch_vaults(vaults0, initial, *batch, full, k as nat),
                    user_vaults: if full {
                        batch_lists(lists0, initial, batch.recipients@, k as nat)
                    } else {
                        lists0
                    },
                    ..mid
                }),
                ids@ == id_range(initial, k as nat),
            decreases n - k,
        {
            let id = initial + k as u64 + 1;
            let owner = batch.recipients[k];
            let vault = Vault::fresh(owner, batch.amounts[k], batch.start_times[k], batch.end_times[k], full);
            self.vaults.insert(id, vault);
            if full {
                self.user_vaults.push(owner, id);
            }
            ids.push(id);
            assert(ids@ =~= id_range(initial, (k + 1) as nat));
            k = k + 1;
        }
        self.vault_count = initial + n as u64;
        Ok(ids)
    }

    /// Creates one lazy vault per recipient, numbered on from the current
    /// count, charging the administrator the sum of all listed amounts;
    /// returns the new ids in order.
    pub fn batch_create_vaults_lazy(&mut self, batch_data: BatchCreateData) -> (r: Result<Vec<u64>, VestingError>)
        ensures
            match batch_outcome(old(self)@, batch_data, false) {
                Ok((t, ids)) => r matches Ok(v) && v@ == ids && final(self)@ == t,
                Err(e) => r matches Err(x) && x == e && final(self)@ == old(self)@,
            },
    {
        self.create_batch(&batch_data, false)
    }

    /// Creates one initialized vault per recipient, as
    /// `batch_create_vaults_lazy` does, and lists each under its recipient.
    pub fn batch_create_vaults_full(&mut self, batch_data: BatchCreateData) -> (r: Result<Vec<u64>, VestingError>)
        ensures
            match batch_outcome(old(self)@, batch_data, true) {
                Ok((t, ids)) => r matches Ok(v) && v@ == ids && final(self)@ == t,
                Err(e) => r matches Err(x) && x == e && final(self)@ == old(self)@,
            },
    {
        self.create_batch(&batch_data, true)
    }

    /// Reads vault `vault_id`, setting up its metadata first when it is not
    /// initialized.
    pub fn get_vault(&mut self, vault_id: u64) -> (r: Vault)
        ensures
            final(self)@ == read_outcome(old(self)@, vault_id).0,
            r == read_outcome(old(self)@, vault_id).1,
    {
        let v = self.stored_or_empty(vault_id);
        if !v.is_initialized {
            self.initialize_vault_metadata(vault_id);
            match self.vaults.get(vault_id) {
                Some(stored) => stored,
                None => {
                    proof {
                        assert(false);
                    }
                    v
                },
            }
        } else {
            v
        }
    }

    /// The vault ids listed for `user`; the metadata of each listed vault
    /// that is not initialized is set up on the way.
    pub fn get_user_vaults(&mut self, user: Address) -> (r: Vec<u64>)
        ensures
            final(self)@ == listing_outcome(old(self)@, user).0,
            r@ == listing_outcome(old(self)@, user).1,
    {
        let ids = self.user_vaults.get(&user);
        let n = ids.len();
        let mut i: usize = 0;
        while i < n
            invariant
                n == ids@.len(),
                i <= n,
                ids@ == listing_outcome(old(self)@, user).1,
                self@ == metadata_upto(old(self)@, ids@, i as nat),
            decreases n - i,
        {
            let vault_id = ids[i];
            let v = match self.vaults.get(vault_id) {
                Some(stored) => stored,
                None => Vault::empty(user),
            };
            if !v.is_initialized {
                self.initialize_vault_metadata(vault_id);
            }
            i = i + 1;
        }
        ids
    }

    /// The amounts still locked in the vaults `1 ..= count`, the amounts
    /// claimed from them, and the administrator's balance. Each vault `i` is
    /// read by its own id; ids with no stored vault add nothing.
    pub fn get_contract_state(&self) -> (r: Result<(i128, i128, i128), VestingError>)
        ensures
            r == state_outcome(self@),
    {
        let mut locked: i128 = 0;
        let mut claimed: i128 = 0;
        let mut i: u64 = 0;
        while i < self.vault_count
            invariant
                i <= self.vault_count,
                totals_upto(self@, i as nat) == Some((locked as int, claimed as int)),
            decreases self.vault_count - i,
        {
            i = i + 1;
            match self.vaults.get(i) {
                None => {},
                Some(v) => {
                    let step = match v.total_amount.checked_sub(v.released_amount) {
                        Some(d) => match locked.checked_add(d) {
                            Some(l) => match claimed.checked_add(v.released_amount) {
                                Some(c) => Some((l, c)),
                                None => None,
                            },
                            None => None,
                        },
                        None => None,
                    };
                    match step {
                        Some((l, c)) => {
                            locked = l;
                            claimed = c;
                        },
                        None => {
                            proof {
                                lemma_totals_overflow_persists(self@, i as nat, self.vault_count as nat);
                            }
                            return Err(VestingError::Overflow);
                        },
                    }
                },
            }
        }
        Ok((locked, claimed, self.admin_balance))
    }

    /// Whether every token of the initial supply is either with the
    /// administrator or in one of the numbered vaults.
    pub fn check_invariant(&self) -> (r: Result<bool, VestingError>)
        ensures
            r == invariant_outcome(self@),
    {
        let initial_supply = self.initial_supply;
        let (locked, claimed, balance) = self.get_contract_state()?;
        let held = match locked.checked_add(claimed) {
            Some(h) => h,
            None => {
                return Err(VestingError::Overflow);
            },
        };
        let sum = match held.checked_add(balance) {
            Some(x) => x,
            None => {
                return Err(VestingError::Overflow);
            },
        };
        Ok(sum == initial_supply)
    }

    /// A ledger with the given recorded values and no vault and no list yet;
    /// vaults and lists are then stored with `store_vault` and
    /// `list_user_vault`.
    pub fn from_parts(
        address: Address,
        token: Option<Address>,
        initial_supply: i128,
        admin_balance: i128,
        admin: Option<Address>,
        proposed_admin: Option<Address>,
        vault_count: u64,
    ) -> (c: VestingContract)
        ensures
            c@ == (ContractView {
                address,
                token,
                initial_supply,
                admin_balance,
                admin,
                proposed_admin,
                vault_count,
                vaults: Map::empty(),
                user_vaults: Map::empty(),
            }),
    {
        VestingContract {
            address,
            token,
            initial_supply,
            admin_balance,
            admin,
            proposed_admin,
            vault_count,
            vaults: VaultTable::new(),
            user_vaults: UserVaultIndex::new(),
        }
    }

    /// Stores `vault` under `id` as it is, replacing what was there.
    pub fn store_vault(&mut self, id: u64, vault: Vault)
        ensures
            final(self)@ == (ContractView { vaults: old(self)@.vaults.insert(id, vault), ..old(self)@ }),
    {
        self.vaults.insert(id, vault);
    }

    /// Appends `id` to the list of `owner`.
    pub fn list_user_vault(&mut self, owner: Address, id: u64)
        ensures
            final(self)@ == (ContractView {
                user_vaults: crate::user_index::with_appended(old(self)@.user_vaults, owner, id),
                ..old(self)@
            }),
    {
        self.user_vaults.push(owner, id);
    }

    /// The contract's own address.
    pub fn address(&self) -> (a: Address)
        ensures
            a == self@.address,
    {
        self.address
    }

    /// The supply recorded at initialization.
    pub fn initial_supply(&self) -> (x: i128)
        ensures
            x == self@.initial_supply,
    {
        self.initial_supply
    }

    /// The administrator's balance.
    pub fn admin_balance(&self) -> (x: i128)
        ensures
            x == self@.admin_balance,
    {
        self.admin_balance
    }

    /// The number of the last vault created.
    pub fn vault_count(&self) -> (x: u64)
        ensures
            x == self@.vault_count,
    {
        self.vault_count
    }

    /// Every stored vault with its id, each once.
    pub fn vault_entries(&self) -> (r: Vec<(u64, Vault)>)
        ensures
            r@.len() == self@.vaults.dom().len(),
            forall|i: int|
                0 <= i < r@.len() ==> self@.vaults.contains_key(#[trigger] r@[i].0) && self@.vaults[r@[i].0] == r@[i].1,
            forall|k: u64| #[trigger] self@.vaults.contains_key(k) ==> exists|i: int| 0 <= i < r@.len() && r@[i].0 == k,
            forall|i: int, j: int| 0 <= i < j < r@.len() ==> #[trigger] r@[i].0 != #[trigger] r@[j].0,
    {
        self.vaults.entries()
    }

    /// Every owner with its list of vault ids, each owner once.
    pub fn user_vault_entries(&self) -> (r: Vec<(Address, Vec<u64>)>)
        ensures
            forall|i: int|
                0 <= i < r@.len() ==> self@.user_vaults.contains_key(#[trigger] r@[i].0) && self@.user_vaults[r@[i].0] == r@[i].1@,
            forall|a: Address| #[trigger] self@.user_vaults.contains_key(a) ==> exists|i: int| 0 <= i < r@.len() && r@[i].0 == a,
            forall|i: int, j: int| 0 <= i < j < r@.len() ==> #[trigger] r@[i].0 != #[trigger] r@[j].0,
            forall|i: int| 0 <= i < r@.len() ==> #[trigger] r@[i].1@.len() > 0,
    {
        self.user_vaults.entries()
    }
}

} // verus!
