use proptest::strategy::Strategy;
use proptest::test_runner::{Config, TestCaseError, TestRunner};
use vesting_contracts::{Address, AddressKind, VestingContract};

#[test]
fn conservation_holds_under_random_operations() {
    let mut runner = TestRunner::new(Config { cases: 64, ..Config::default() });
    let ops = proptest::collection::vec((0u8..4, 0i128..2_000, 0u64..6, 0u64..40), 1..40);
    let strategy = (1_000i128..1_000_000, ops).prop_map(|(supply, ops)| (supply, ops));
    let result = runner.run(&strategy, |(supply, ops)| {
        let me = Address::new(AddressKind::Contract, 1, 1);
        let mut c = VestingContract::new(me);
        c.initialize(me, supply);
        c.set_token(me).unwrap();
        for (kind, amount, id, now) in ops {
            let owner = Address::new(AddressKind::Account, 0, (id % 3) as u128);
            match kind {
                0 => {
                    let _ = c.create_vault_full(owner, amount, 5, 25);
                },
                1 => {
                    let _ = c.create_vault_lazy(owner, amount, 5, 25);
                },
                2 => {
                    let _ = c.claim_tokens(id, amount, now);
                },
                _ => {
                    let _ = c.get_vault(id);
                },
            }
            if c.check_invariant() != Ok(true) {
                return Err(TestCaseError::fail("supply no longer accounted for"));
            }
            for (vid, v) in c.vault_entries() {
                if let Ok(claimable) = c.get_claimable_amount(vid, 25) {
                    if v.total_amount >= 0 && claimable + v.released_amount != v.total_amount {
                        return Err(TestCaseError::fail("not everything claimable at the end"));
                    }
                }
                if !(v.released_amount == 0 || (0 < v.released_amount && v.released_amount <= v.total_amount)) {
                    return Err(TestCaseError::fail("vault released more than it holds"));
                }
            }
        }
        Ok(())
    });
    assert!(result.is_ok());
}
