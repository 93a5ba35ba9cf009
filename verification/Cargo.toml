[package]
name = "chunked_l1"
version = "0.1.0"
edition = "2021"
publish = false

[dependencies]
keccak-hash = "0.11"
bytes = "1"
rkyv = "0.8"
serde = { version = "1", features = ["derive"] }
thiserror = "2"
