[package]
name = "revaultd"
version = "0.1.0"
edition = "2021"
publish = false

[dependencies]
revault_tx = "*"
serde_json = "*"
jsonrpc = "*"
