# usdb_runes

Verified core of a BTC-backed rune stablecoin on the Internet Computer.

- `src/` — the library, verified with Verus: derivation paths (`derivation`), rune
  etching runestones (`runes`, `script`), UTXO selection (`utxo`), unsigned
  transaction assembly (`transaction`), wallet addresses and Taproot data
  (`address`), key caches (`key_cache`), deposit intents (`intents`), the USDB
  ledger (`ledger`), the canister context (`context`) and endpoint decisions
  (`service`). Calls into `bitcoin`, `leb128`, `tiny-keccak` and `sha3` stand
  behind small trusted wrappers whose contracts are stated next to them.
- `tests/` — tests of the library.
- `app/` — the three canisters (wallet, price oracle, USDB backend): IC calls,
  canister state, signing and the Candid copies of the library's types.
