use vesting_contracts::{Address, AddressKind, BatchCreateData, Payout, Request, Vault, VestingContract, VestingError};

fn contract_address() -> Address {
    Address::new(AddressKind::Contract, 7, 7)
}

fn account(n: u128) -> Address {
    Address::new(AddressKind::Account, 0, n)
}

fn admin() -> Address {
    account(100)
}

fn token() -> Address {
    Address::new(AddressKind::Contract, 9, 9)
}

/// An initialized ledger with an administrator and a payment token.
fn funded(supply: i128) -> VestingContract {
    let mut c = VestingContract::new(contract_address());
    c.initialize(admin(), supply);
    c.set_token(token()).unwrap();
    c
}

fn paid(to: Address, amount: i128) -> Payout {
    Payout { token: Some(token()), recipient: to, amount }
}

fn batch(recipients: Vec<Address>, amounts: Vec<i128>, starts: Vec<u64>, ends: Vec<u64>) -> BatchCreateData {
    BatchCreateData { recipients, amounts, start_times: starts, end_times: ends }
}

#[test]
fn initialize_records_admin_and_supply() {
    let c = funded(1_000_000_000);
    assert_eq!(c.get_admin(), Ok(admin()));
    assert_eq!(c.get_token(), Some(token()));
    assert_eq!(c.get_contract_state(), Ok((0, 0, 1_000_000_000)));
    assert_eq!(c.check_invariant(), Ok(true));
    assert_eq!(c.initial_supply(), 1_000_000_000);
    assert_eq!(c.vault_count(), 0);
}

#[test]
fn admin_missing_before_initialize() {
    let mut c = VestingContract::new(contract_address());
    assert_eq!(c.get_admin(), Err(VestingError::AdminNotSet));
    assert_eq!(c.get_proposed_admin(), None);
    assert_eq!(c.create_vault_full(account(1), 10, 0, 10), Err(VestingError::AdminNotSet));
    assert_eq!(c.propose_new_admin(account(1)), Err(VestingError::AdminNotSet));
    assert_eq!(c.set_token(token()), Err(VestingError::AdminNotSet));
    let b = batch(vec![account(1)], vec![10], vec![0], vec![10]);
    assert_eq!(c.batch_create_vaults_full(b), Err(VestingError::AdminNotSet));
}

#[test]
fn ownership_handover() {
    let mut c = funded(1000);
    assert_eq!(c.accept_ownership(), Err(VestingError::NoProposedAdmin));
    assert_eq!(c.propose_new_admin(account(5)), Ok(()));
    assert_eq!(c.get_proposed_admin(), Some(account(5)));
    assert_eq!(c.get_admin(), Ok(admin()));
    assert_eq!(c.accept_ownership(), Ok(()));
    assert_eq!(c.get_admin(), Ok(account(5)));
    assert_eq!(c.get_proposed_admin(), None);
    assert_eq!(c.accept_ownership(), Err(VestingError::NoProposedAdmin));
}

#[test]
fn full_vaults_are_numbered_charged_and_listed() {
    let mut c = funded(1_000);
    let bob = account(2);
    assert_eq!(c.create_vault_full(bob, 100, 5, 50), Ok(1));
    assert_eq!(c.create_vault_full(bob, 200, 5, 60), Ok(2));
    assert_eq!(c.admin_balance(), 700);
    assert_eq!(c.get_user_vaults(bob), vec![1, 2]);
    let v = c.get_vault(2);
    assert_eq!(
        v,
        Vault { owner: bob, total_amount: 200, released_amount: 0, start_time: 5, end_time: 60, is_initialized: true }
    );
    assert_eq!(c.get_contract_state(), Ok((300, 0, 700)));
    assert_eq!(c.check_invariant(), Ok(true));
}

#[test]
fn refused_creation_changes_nothing() {
    let mut c = funded(100);
    assert_eq!(c.create_vault_full(account(2), 101, 0, 1), Err(VestingError::InsufficientAdminBalance));
    assert_eq!(c.vault_count(), 0);
    assert_eq!(c.admin_balance(), 100);
    assert_eq!(c.vault_entries().len(), 0);
    assert_eq!(c.user_vault_entries().len(), 0);
}

#[test]
fn creation_overflows() {
    let me = contract_address();
    let mut c = VestingContract::from_parts(me, None, 10, 10, Some(me), None, u64::MAX);
    assert_eq!(c.create_vault_full(account(1), 1, 0, 1), Err(VestingError::Overflow));
    let mut d = VestingContract::from_parts(me, None, 0, i128::MAX, Some(me), None, 0);
    assert_eq!(d.create_vault_lazy(account(1), -1, 0, 1), Err(VestingError::Overflow));
    assert_eq!(d.admin_balance(), i128::MAX);
}

#[test]
fn lazy_vaults_need_metadata() {
    let mut c = funded(1_000);
    let bob = account(2);
    assert_eq!(c.create_vault_lazy(bob, 300, 0, 10), Ok(1));
    assert_eq!(c.admin_balance(), 700);
    assert_eq!(c.user_vault_entries().len(), 0);
    assert_eq!(c.claim_tokens(1, 10, 10), Err(VestingError::VaultNotInitialized));
    assert_eq!(c.initialize_vault_metadata(1), true);
    assert_eq!(c.initialize_vault_metadata(1), false);
    assert_eq!(c.user_vault_entries(), vec![(bob, vec![1])]);
    assert_eq!(c.claim_tokens(1, 10, 10), Ok(paid(bob, 10)));
}

#[test]
fn lazy_then_metadata_equals_full() {
    let bob = account(2);
    let mut lazy = funded(1_000);
    let mut full = funded(1_000);
    let id = lazy.create_vault_lazy(bob, 300, 3, 30).unwrap();
    assert_eq!(full.create_vault_full(bob, 300, 3, 30), Ok(id));
    assert!(lazy.initialize_vault_metadata(id));
    assert_eq!(lazy.vault_entries(), full.vault_entries());
    assert_eq!(lazy.user_vault_entries(), full.user_vault_entries());
    assert_eq!(lazy.admin_balance(), full.admin_balance());
}

#[test]
fn metadata_of_missing_vault_creates_contract_vault() {
    let mut c = funded(1_000);
    assert!(c.initialize_vault_metadata(42));
    let v = c.get_vault(42);
    assert_eq!(
        v,
        Vault {
            owner: contract_address(),
            total_amount: 0,
            released_amount: 0,
            start_time: 0,
            end_time: 0,
            is_initialized: true
        }
    );
    assert_eq!(c.user_vault_entries(), vec![(contract_address(), vec![42])]);
    assert_eq!(c.check_invariant(), Ok(true));
}

#[test]
fn get_vault_initializes_lazy_vault_and_is_stable() {
    let mut c = funded(1_000);
    let bob = account(3);
    c.create_vault_lazy(bob, 50, 1, 2).unwrap();
    let first = c.get_vault(1);
    assert!(first.is_initialized);
    assert_eq!(first.total_amount, 50);
    let second = c.get_vault(1);
    assert_eq!(first, second);
    assert_eq!(c.user_vault_entries(), vec![(bob, vec![1])]);
}

#[test]
fn claims() {
    let mut c = funded(1_000);
    let bob = account(2);
    c.create_vault_full(bob, 100, 0, 10).unwrap();
    assert_eq!(c.claim_tokens(9, 1, 10), Err(VestingError::VaultNotFound));
    assert_eq!(c.claim_tokens(1, 0, 10), Err(VestingError::NonPositiveClaim));
    assert_eq!(c.claim_tokens(1, -5, 10), Err(VestingError::NonPositiveClaim));
    assert_eq!(c.claim_tokens(1, 30, 10), Ok(paid(bob, 30)));
    assert_eq!(c.claim_tokens(1, 71, 10), Err(VestingError::InsufficientTokens));
    assert_eq!(c.claim_tokens(1, 70, 10), Ok(paid(bob, 70)));
    assert_eq!(c.get_vault(1).released_amount, 100);
    assert_eq!(c.get_contract_state(), Ok((0, 100, 900)));
    assert_eq!(c.check_invariant(), Ok(true));
}

#[test]
fn claims_without_a_token_are_booked() {
    let mut c = VestingContract::new(contract_address());
    c.initialize(admin(), 1_000);
    c.create_vault_full(account(2), 100, 0, 10).unwrap();
    assert_eq!(c.claim_tokens(1, 10, 10), Ok(Payout { token: None, recipient: account(2), amount: 10 }));
    assert_eq!(
        c.claim_all(vec![1], vec![20], 10),
        Ok(vec![Payout { token: None, recipient: account(2), amount: 20 }])
    );
    assert_eq!(c.get_vault(1).released_amount, 30);
}

#[test]
fn authorization_needed_by_each_request() {
    let mut c = VestingContract::new(contract_address());
    assert_eq!(c.required_authorization(Request::CreateVault), None);
    c.initialize(admin(), 1_000);
    for r in [Request::ProposeNewAdmin, Request::SetToken, Request::CreateVault, Request::CreateBatch] {
        assert_eq!(c.required_authorization(r), Some(admin()));
    }
    for r in [Request::Initialize, Request::InitializeVaultMetadata, Request::Claim, Request::Read] {
        assert_eq!(c.required_authorization(r), None);
    }
    assert_eq!(c.required_authorization(Request::AcceptOwnership), None);
    c.propose_new_admin(account(5)).unwrap();
    assert_eq!(c.required_authorization(Request::AcceptOwnership), Some(account(5)));
}

#[test]
fn claims_follow_the_vesting_schedule() {
    let mut c = funded(10_000);
    let bob = account(2);
    c.create_vault_full(bob, 1000, 100, 1100).unwrap();
    assert_eq!(c.get_claimable_amount(1, 0), Ok(0));
    assert_eq!(c.get_claimable_amount(1, 100), Ok(0));
    assert_eq!(c.get_claimable_amount(1, 101), Ok(1));
    assert_eq!(c.get_claimable_amount(1, 433), Ok(333));
    assert_eq!(c.claim_tokens(1, 1, 100), Err(VestingError::InsufficientTokens));
    assert_eq!(c.claim_tokens(1, 334, 433), Err(VestingError::InsufficientTokens));
    assert_eq!(c.claim_tokens(1, 333, 433), Ok(paid(bob, 333)));
    assert_eq!(c.get_claimable_amount(1, 433), Ok(0));
    assert_eq!(c.get_claimable_amount(1, 2000), Ok(667));
    assert_eq!(c.get_claimable_amount(7, 2000), Err(VestingError::VaultNotFound));
}

#[test]
fn vesting_of_large_and_negative_totals() {
    let me = contract_address();
    let mut c = VestingContract::from_parts(me, Some(token()), 0, 0, Some(me), None, 0);
    let big = Vault {
        owner: me,
        total_amount: i128::MAX,
        released_amount: 0,
        start_time: 0,
        end_time: u64::MAX,
        is_initialized: true,
    };
    c.store_vault(1, big);
    c.store_vault(2, Vault { total_amount: i128::MIN, start_time: 0, end_time: 2, ..big });
    c.store_vault(3, Vault { total_amount: -7, start_time: 0, end_time: 2, ..big });
    // i128::MAX * (2^64 - 2) / (2^64 - 1), rounded down.
    let expected_big = i128::MAX - (i128::MAX / (u64::MAX as i128)) - 1;
    assert_eq!(c.get_claimable_amount(1, u64::MAX - 1), Ok(expected_big));
    assert_eq!(c.get_claimable_amount(2, 1), Ok(i128::MIN / 2));
    assert_eq!(c.get_claimable_amount(3, 1), Ok(-4));
    assert_eq!(c.claim_tokens(3, 1, 1), Err(VestingError::InsufficientTokens));
}

#[test]
fn test_create_vault_full_and_claim() {
    let mut c = funded(1_000_000_000i128);
    let beneficiary = account(2);
    let now = 0u64;
    let vault_id = c.create_vault_full(beneficiary, 1000i128, now, now + 1000).unwrap();
    assert_eq!(vault_id, 1);
    assert_eq!(c.get_claimable_amount(vault_id, now + 500), Ok(500));
    let payout = c.claim_tokens(vault_id, 100i128, now + 500).unwrap();
    assert_eq!(c.get_claimable_amount(vault_id, now + 500), Ok(400));
    assert_eq!(payout.recipient, beneficiary);
    assert_eq!(payout.amount, 100);
}

#[test]
fn test_math_invariant_linear() {
    let mut c = funded(1_000_000_000i128);
    let beneficiary = account(2);
    let start = 1000u64;
    let end = 5000u64;
    let amount = 1_000_000i128;
    let vault_id = c.create_vault_full(beneficiary, amount, start, end).unwrap();
    for t in 0..6000 {
        let claimable = c.get_claimable_amount(vault_id, t).unwrap();
        let vault = c.get_vault(vault_id);
        assert!(claimable + vault.released_amount <= vault.total_amount);
        assert!(claimable >= 0);
        if t >= end {
            assert_eq!(claimable + vault.released_amount, vault.total_amount);
        }
    }
}

#[test]
fn claim_all_in_order() {
    let mut c = funded(1_000);
    c.create_vault_full(account(1), 100, 0, 10).unwrap();
    c.create_vault_full(account(2), 50, 0, 10).unwrap();
    assert_eq!(c.claim_all(vec![1, 2], vec![10], 10), Err(VestingError::LengthMismatch));
    assert_eq!(c.claim_all(vec![], vec![], 10), Err(VestingError::EmptyClaim));
    assert_eq!(
        c.claim_all(vec![1, 2, 1], vec![10, 50, 90], 10),
        Ok(vec![paid(account(1), 10), paid(account(2), 50), paid(account(1), 90)])
    );
    assert_eq!(c.get_vault(1).released_amount, 100);
    assert_eq!(c.get_vault(2).released_amount, 50);
    assert_eq!(c.check_invariant(), Ok(true));
}

#[test]
fn claim_all_is_all_or_nothing() {
    let mut c = funded(1_000);
    c.create_vault_full(account(1), 100, 0, 10).unwrap();
    // The second claim of vault 1 exceeds what the first left.
    assert_eq!(c.claim_all(vec![1, 1], vec![60, 60], 10), Err(VestingError::InsufficientVaultTokens));
    assert_eq!(c.get_vault(1).released_amount, 0);
    assert_eq!(c.claim_all(vec![1, 5], vec![1, 1], 10), Err(VestingError::VaultNotFound));
    assert_eq!(c.get_vault(1).released_amount, 0);
    // Only half has vested at time 5.
    assert_eq!(c.claim_all(vec![1], vec![51], 5), Err(VestingError::InsufficientVaultTokens));
}

#[test]
fn batch_lazy_and_full() {
    let r1 = account(1);
    let r2 = account(2);
    let mut c = funded(1_000);
    c.create_vault_full(r1, 100, 0, 10).unwrap();
    let lazy = batch(vec![r1, r2], vec![500, 200], vec![1, 2], vec![10, 20]);
    assert_eq!(c.batch_create_vaults_lazy(lazy), Ok(vec![2, 3]));
    assert_eq!(c.admin_balance(), 200);
    assert_eq!(c.get_user_vaults(r2), Vec::<u64>::new());
    assert_eq!(c.vault_count(), 3);
    let full = batch(vec![r2, r2], vec![50, 50], vec![0, 0], vec![5, 5]);
    assert_eq!(c.batch_create_vaults_full(full), Ok(vec![4, 5]));
    assert_eq!(c.get_user_vaults(r2), vec![4, 5]);
    assert_eq!(c.admin_balance(), 100);
    assert_eq!(c.get_vault(3).total_amount, 200);
    assert_eq!(c.check_invariant(), Ok(true));
}

#[test]
fn batch_refusals() {
    let r1 = account(1);
    let mut c = funded(100);
    let too_much = batch(vec![r1, r1], vec![60, 50], vec![0, 0], vec![1, 1]);
    assert_eq!(c.batch_create_vaults_full(too_much), Err(VestingError::InsufficientBatchBalance));
    let missing = batch(vec![r1, r1], vec![10, 10], vec![0], vec![1, 1]);
    assert_eq!(c.batch_create_vaults_lazy(missing), Err(VestingError::MissingBatchEntry));
    let short_amounts = batch(vec![r1, r1], vec![10], vec![0, 0], vec![1, 1]);
    assert_eq!(c.batch_create_vaults_full(short_amounts), Err(VestingError::MissingBatchEntry));
    let overflowing = batch(vec![r1, r1], vec![i128::MAX, 1], vec![0, 0], vec![1, 1]);
    assert_eq!(c.batch_create_vaults_full(overflowing), Err(VestingError::Overflow));
    assert_eq!(c.admin_balance(), 100);
    assert_eq!(c.vault_count(), 0);
    let me = contract_address();
    let mut d = VestingContract::from_parts(me, None, 10, 10, Some(me), None, u64::MAX - 1);
    let two = batch(vec![r1, r1], vec![1, 1], vec![0, 0], vec![1, 1]);
    assert_eq!(d.batch_create_vaults_lazy(two), Err(VestingError::Overflow));
}

#[test]
fn empty_batch_creates_nothing() {
    let mut c = funded(100);
    assert_eq!(c.batch_create_vaults_full(batch(vec![], vec![], vec![], vec![])), Ok(vec![]));
    assert_eq!(c.vault_count(), 0);
    assert_eq!(c.admin_balance(), 100);
}

#[test]
fn extra_batch_amounts_break_the_invariant() {
    let r1 = account(1);
    let mut c = funded(100);
    // Three amounts for one recipient: all three are charged, one vault made.
    let b = batch(vec![r1], vec![10, 20, 30], vec![0], vec![1]);
    assert_eq!(c.batch_create_vaults_lazy(b), Ok(vec![1]));
    assert_eq!(c.admin_balance(), 40);
    assert_eq!(c.get_contract_state(), Ok((10, 0, 40)));
    assert_eq!(c.check_invariant(), Ok(false));
}

#[test]
fn user_listing_initializes_lazily_listed_vaults() {
    let mut c = funded(1_000);
    let bob = account(2);
    c.create_vault_full(bob, 10, 0, 1).unwrap();
    // Vault 7 is listed under bob but was never stored.
    c.list_user_vault(bob, 7);
    assert_eq!(c.get_user_vaults(bob), vec![1, 7]);
    assert!(c.get_vault(7).is_initialized);
    assert_eq!(c.get_vault(7).owner, contract_address());
    assert_eq!(c.get_user_vaults(contract_address()), vec![7]);
}

#[test]
fn contract_state_overflow() {
    let me = contract_address();
    let mut c = VestingContract::from_parts(me, None, 0, 0, Some(me), None, 2);
    let v = Vault { owner: me, total_amount: i128::MAX, released_amount: 0, start_time: 0, end_time: 0, is_initialized: true };
    c.store_vault(1, v);
    c.store_vault(2, v);
    assert_eq!(c.get_contract_state(), Err(VestingError::Overflow));
    assert_eq!(c.check_invariant(), Err(VestingError::Overflow));
    let mut d = VestingContract::from_parts(me, None, 0, 0, Some(me), None, 1);
    d.store_vault(1, Vault { total_amount: i128::MIN, released_amount: 1, ..v });
    assert_eq!(d.get_contract_state(), Err(VestingError::Overflow));
}

#[test]
fn reinitialize_restarts_numbering() {
    let mut c = funded(1_000);
    c.create_vault_full(account(1), 100, 0, 1).unwrap();
    c.initialize(admin(), 500);
    assert_eq!(c.check_invariant(), Ok(true));
    assert_eq!(c.create_vault_full(account(2), 50, 0, 1), Ok(1));
    assert_eq!(c.get_vault(1).owner, account(2));
    assert_eq!(c.check_invariant(), Ok(true));
}

#[test]
fn error_messages() {
    assert_eq!(VestingError::AdminNotSet.message(), "Admin not set");
    assert_eq!(VestingError::NoProposedAdmin.message(), "No proposed admin found");
    assert_eq!(VestingError::InsufficientAdminBalance.message(), "Insufficient admin balance");
    assert_eq!(VestingError::InsufficientBatchBalance.message(), "Insufficient admin balance for batch");
    assert_eq!(VestingError::VaultNotFound.message(), "Vault not found");
    assert_eq!(VestingError::VaultNotInitialized.message(), "Vault not initialized");
    assert_eq!(VestingError::NonPositiveClaim.message(), "Claim amount must be positive");
    assert_eq!(VestingError::InsufficientTokens.message(), "Insufficient tokens to claim");
    assert_eq!(VestingError::InsufficientVaultTokens.message(), "Insufficient tokens in vault");
    assert_eq!(VestingError::LengthMismatch.message(), "vault_ids and claim_amounts must be the same length");
    assert_eq!(VestingError::EmptyClaim.message(), "Must provide at least one vault");
    assert_eq!(VestingError::MissingBatchEntry.message(), "Batch entry missing");
    assert_eq!(VestingError::Overflow.message(), "Arithmetic overflow");
}

#[test]
fn snapshot_restores_the_same_ledger() {
    let mut c = funded(1_000);
    c.create_vault_full(account(1), 100, 0, 1).unwrap();
    c.create_vault_lazy(account(2), 200, 0, 1).unwrap();
    c.claim_tokens(1, 40, 1).unwrap();
    c.propose_new_admin(account(4)).unwrap();
    let mut d = VestingContract::from_parts(
        c.address(),
        c.get_token(),
        c.initial_supply(),
        c.admin_balance(),
        c.get_admin().ok(),
        c.get_proposed_admin(),
        c.vault_count(),
    );
    for (id, v) in c.vault_entries() {
        d.store_vault(id, v);
    }
    for (owner, ids) in c.user_vault_entries() {
        for id in ids {
            d.list_user_vault(owner, id);
        }
    }
    assert_eq!(d.vault_entries(), c.vault_entries());
    assert_eq!(d.user_vault_entries(), c.user_vault_entries());
    assert_eq!(d.get_contract_state(), c.get_contract_state());
    assert_eq!(d.get_proposed_admin(), Some(account(4)));
}

#[test]
fn test_initialize() {
    let admin = account(100);
    let mut c = VestingContract::new(contract_address());
    c.initialize(admin, 1_000_000_000i128);
    assert_eq!(c.get_admin(), Ok(admin));
}

#[test]
fn test_batch_operations() {
    let mut c = funded(1_000_000_000i128);
    let r1 = account(1);
    let r2 = account(2);
    let now = 0u64;
    let b = batch(vec![r1, r2], vec![500i128, 500i128], vec![now, now], vec![now + 1000, now + 1000]);
    let ids = c.batch_create_vaults_full(b).unwrap();
    assert_eq!(ids.len(), 2);
    assert_eq!(ids[0], 1);
    assert_eq!(ids[1], 2);
}
