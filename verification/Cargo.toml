[package]
name = "bundle_sender"
version = "0.1.0"
edition = "2021"
publish = false

[dependencies]
colored = "=2.1.0"
eyre = "0.6"
rand = "=0.8.8"
reqwest = { version = "=0.11.27", default-features = false, features = ["json", "rustls-tls"] }
serde = { version = "1", features = ["derive"] }
serde_json = "=1.0.154"
solana-program = "=1.18.26"
solana-rpc-client = "=1.18.26"
solana-rpc-client-api = "=1.18.26"
solana-sdk = "=1.18.26"
solana-transaction-status = "=1.18.26"
# Not named in the code: an older `url` keeps the ICU crates out of the lock file.
url = "=2.4.1"
