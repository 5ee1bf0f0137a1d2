[package]
name = "sp_domains_fraud_proof"
version = "0.1.0"
edition = "2021"
publish = false

[dependencies]
frame-support = "*"
parity-scale-codec = { version = "3", features = ["derive"] }
scale-info = { version = "2", features = ["derive"] }
sp-api = "*"
sp-blockchain = "*"
sp-consensus-slots = "*"
sp-core = "*"
sp-runtime = "*"
sp-trie = "*"
thiserror = "1"
trie-db = "*"
