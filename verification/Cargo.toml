[package]
name = "bonsol_node"
version = "0.1.0"
edition = "2021"
publish = false

[dependencies]
anyhow = "1"
serde = { version = "1", features = ["derive"] }
solana-rpc-client = "2"
solana-sdk = { version = "2", default-features = false }
tracing = "0.1"
