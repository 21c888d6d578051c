//! Verified core of a BTC-backed rune stablecoin canister: BIP-32 style
//! derivation paths, rune etching runestones, UTXO selection, unsigned
//! transaction assembly, public-key caches, deposit intents and the USDB ledger.
pub mod address;
pub mod assoc;
pub mod bytes;
pub mod context;
pub mod decimal;
pub mod derivation;
pub mod hashing;
pub mod intents;
pub mod key_cache;
pub mod ledger;
pub mod runes;
pub mod script;
pub mod service;
pub mod transaction;
pub mod utxo;
