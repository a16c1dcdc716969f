[package]
name = "namada_governance"
version = "0.1.0"
edition = "2021"
publish = false

[dependencies]
borsh = { version = "=1.8.1", features = ["derive", "unstable__schema"] }
ibc-core-host-types = "0.53"
itertools = "=0.10.5"
serde = { version = "=1.0.229", features = ["derive"] }
thiserror = "=1.0.69"
