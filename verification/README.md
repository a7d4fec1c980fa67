# chia_vault_recover

A verified library for recovering a Chia Cloud Wallet vault from its Receive
address. It is written in Verus: each function carries a contract, and the
properties that tie functions together are stated and proved as proof
functions.

## Modules

- `address` — bech32m encoding and decoding of `xch1…` / `txch1…` addresses
  (through the `bech32` crate), Receive-address validation, and the network an
  address prefix names.
- `guidance` — the texts shown when a lookup cannot rebuild the vault layout,
  and the texts shown after a successful lookup.
- `clvm` — CLVM programs read from their serialized bytes into one allocator,
  and the CHIP-0043 memos read from them (through `clvmr` and
  `chia-sdk-driver`). Every node and memo it hands out carries its allocator
  and, as ghost state, its place: the programs' bytes and the path to it. What
  each outside parse gives is named over those places.
- `hint` — reading the CHIP-0043 recovery hint: the depth-first walk that finds
  the memos of a program (`walk_memos`), the layout each memo encodes
  (`layout_reads`), and the choice of the first layout whose vault has the
  expected puzzle hash (`first_hinted_config`, `hinted_config_from_programs`,
  `hinted_config_from_spend`).
- `layout` — the decisions behind the hint: which side is custody and which is
  recovery, which clawback timelock the memo commits to, and the members of
  each side. Works on `MemoLayout`, the part of a memo the decisions read.
- `config` — the public vault layout that the hint yields.
- `status` — the phrase checks, word counts and status lines of the recovery
  wizard, and decimal formatting.
- `text` — Unicode trimming, ASCII case folding and lowercase hex.
- `error`, `network` — the error type and the Chia networks.

## Checking

`tests/` holds the scenario tests; the laws are the `law_*` proof functions in
`src/`.
