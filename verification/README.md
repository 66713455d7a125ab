# vesting_contracts

A token-vesting ledger with machine-checked contracts. An administrator holds
an initial supply and funds vaults for beneficiaries out of it; each vault
vests linearly between its start and end times, and beneficiaries claim what
has vested, paid in the recorded token; vaults may be created lazily and
initialized later.

Layout:

- `src/` — the verified library (Verus).
  - `address.rs`, `vault.rs`, `error.rs` — the plain data the ledger works on.
  - `schedule.rs` — the vesting schedule and its exact computation.
  - `user_index.rs` — per-owner lists of vault ids.
  - `vault_table.rs` — vaults by id.
  - `model.rs` — the abstract ledger (`ContractView`) and, for every
    operation, the exact outcome as a spec function.
  - `request.rs` — which address must authorize each kind of request.
  - `contract.rs` — `VestingContract`, whose operations are proved to produce
    exactly those outcomes; a refused request leaves the ledger unchanged.
  - `laws.rs` — properties across operations: the supply stays accounted
    for, releases never exceed totals, lazy creation plus metadata set-up
    equals full creation, and more.
- `tests/` — tests on concrete values, including a randomized one.
- `app/` — the Soroban contract: loads the ledger from instance storage,
  requires the administrator's authorization for privileged requests, calls
  the library with the ledger time, stores it back and transfers the payouts
  it owes, or panics with the refusal's message.

Scope: the ledger covers administration, full and lazy vault creation
(single and batched), linear vesting, claims with their payouts, and supply
accounting. Periodic (stepped) vesting, keeper fees, revocable or
transferable vaults, milestones, pausing, whitelists, voting power and its
delegation, and schedule acceleration are not part of it.
