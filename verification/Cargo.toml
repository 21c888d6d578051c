[package]
name = "usdb_runes"
version = "0.1.0"
edition = "2021"
publish = false

[dependencies]
bitcoin = "0.32"
candid = "0.10"
ic-cdk = "0.18"
leb128 = "0.2"
serde = { version = "1", features = ["derive"] }
sha2 = "0.10"
sha3 = "0.10"
tiny-keccak = { version = "2", features = ["sha3"] }
