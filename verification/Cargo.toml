[package]
name = "wallet_verify"
version = "0.1.0"
edition = "2021"
publish = false

[dependencies]
bitcoin = "0.32"
bitcoind = "*"
serde_json = "*"
near-primitives = "*"
near-jsonrpc-client = "*"
