# normal_index

Verified logic of an on-chain index fund: share minting and redemption,
fee splitting and fee accrual, volume tiers, component books and
rebalancing, an adapter registry, swap planning for several DEX adapters,
oracle price conversion, a deployment factory, and privacy-level views.

Layout:

- `src/` — the library, written in Verus. Every public function carries a
  `requires`/`ensures` contract over spec models; the `lemma_*` proof
  functions state the properties that span several calls (idempotent fee
  collection, no gain from a mint followed by a redeem, registry read-back,
  rebalance cooldown, encryption round trip, ...).
- `tests/` — ordinary Rust tests run against the compiled library.
- `app/` — a partial host layer on `soroban-sdk`: ledger identifiers for
  addresses and symbols, the adapter registry contract, the oracle price
  call and the index's swap-utility calls, each converting to and from the
  library's plain types. The fund, index, adapter and factory contracts
  have no host entry points here yet; their transfers and cross-contract
  calls are planned by the library but not made.
