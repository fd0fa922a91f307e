[package]
name = "fedimint_consensus"
version = "0.1.0"
edition = "2021"
publish = false

[dependencies]
bitcoin_hashes = "*"
anyhow = "*"
async-channel = "*"
futures = "*"
tokio = { version = "*", features = ["full"] }
tracing = "*"
aleph-bft = "*"
aleph-bft-types = "*"
