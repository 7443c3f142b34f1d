[package]
name = "rindexer_core"
version = "0.1.0"
edition = "2021"
publish = false

[dependencies]
bb8 = "0.8"
bb8-postgres = "0.8"
bytes = "1"
dotenv = "0.15"
ethers = { version = "2.0", default-features = false }
percent-encoding = "2"
regex = "1"
rust_decimal = { version = "1", features = ["db-tokio-postgres"] }
serde = { version = "1", features = ["derive"] }
serde_yaml = "0.9"
thiserror = "1"
tokio-postgres = "0.7"
tracing = "0.1"
