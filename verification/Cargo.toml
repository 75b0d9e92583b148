[package]
name = "bsc_parlia"
version = "0.1.0"
edition = "2021"
publish = false

[dependencies]
alloy-consensus = { version = "=2.0.4", default-features = false, features = ["std"] }
alloy-eips = { version = "=2.0.4", default-features = false, features = ["std"] }
alloy-network = { version = "=2.0.4", default-features = false }
alloy-primitives = { version = "=1.5.7", features = ["getrandom", "rlp"] }
alloy-rlp = "=0.3.17"
alloy-rpc-types-engine = { version = "=2.0.4", default-features = false, features = ["std", "serde"] }
async-trait = "=0.1.92"
bytes = "=1.12.1"
clap = { version = "=4.6.7", default-features = false, features = ["std", "derive", "help", "usage"] }
eyre = "=0.6.14"
jsonrpsee = { version = "=0.26.1", features = ["server-core", "jsonrpsee-types"] }
k256 = "=0.13.4"
lru = "=0.16.4"
metrics = "=0.24.6"
once_cell = "=1.21.4"
op-alloy-consensus = { version = "=2.0.0", default-features = false, features = ["std", "alloy-compat"] }
parking_lot = "=0.12.5"
rand = "=0.9.5"
revm = { version = "=38.0.0", default-features = false, features = ["std"] }
schnellru = "=0.2.4"
serde = { version = "=1.0.229", features = ["derive"] }
serde_json = "=1.0.154"
thiserror = "=2.0.21"
tokio = { version = "=1.54.1", features = ["sync", "rt", "time", "macros"] }
tracing = "=0.1.44"
