# trivela

Verified core of the Trivela campaign and rewards contracts for Soroban.

- `src/` — the library, verified with Verus:
  - `hashing.rs`: SHA-256 through the Soroban host, and the byte order of 32-byte values;
  - `allowlist.rs`: Merkle allowlist proofs (sorted-pair hashing) and their laws;
  - `account.rs`: accounts named by their address text;
  - `campaign.rs`, `campaign_laws.rs`: the campaign state machine (admin nonce,
    time window, capacity, allowlist, registration) and what holds across calls;
  - `rewards.rs`, `rewards_laws.rs`: the rewards ledger (credits, campaign
    multipliers, batches, claims, transfers) and its conservation laws.
- `app/` — the Soroban contracts: authorization, storage, ledger time and
  events around the library's state machines.
- `tests/` — scenario tests of both contracts and of the laws on concrete values.
