[package]
name = "cell_wallet"
version = "0.1.0"
edition = "2021"
publish = false

[dependencies]
ckb-sdk = "=5.1.0"
ckb-types = "=1.1.4"
ckb-jsonrpc-types = "=1.2.1"
secp256k1 = "=0.30.0"
clap = "=2.34.0"
serde = { version = "=1.0.229", features = ["derive"] }
serde_json = "=1.0.154"
