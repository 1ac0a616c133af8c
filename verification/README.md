# stellar_groups

Rotating-savings groups (ROSCA / ajo / chama) with a referral reward layer,
written in Verus.

- `src/` is the verified library. `GroupsContract` holds the contract state
  and has one method per entry point; each method's contract states, over the
  mathematical `ContractState`, exactly which error a call gets and what the
  state becomes. Addresses are `AccountId`s (the bytes of their StrKey).
  - `group.rs`: a group, its invariant, and the join / contribute / close-round
    decisions; `referral.rs`: referrer records and claimable balances;
    `keyed.rs`: maps held as vectors of entries; `laws.rs`: properties that
    span several calls (full rotation, no double contribution, claims).
- `app/` is the Soroban contract around the library: ledger storage,
  authorization, ledger time, token transfers and events.
- `tests/` runs the library on concrete scenarios.
