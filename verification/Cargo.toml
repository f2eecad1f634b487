[package]
name = "silica_contract_sdk"
version = "0.1.0"
edition = "2021"
publish = false

[dependencies]
blake3 = { version = "1", default-features = false, features = ["pure"] }
ed25519-dalek = { version = "2", default-features = false, features = ["alloc"] }
hex = { version = "0.4", default-features = false, features = ["alloc"] }
itoa = "1"
postcard = { version = "1", default-features = false, features = ["alloc"] }
serde = { version = "1", default-features = false, features = ["alloc", "derive"] }
spin = { version = "0.9", default-features = false, features = ["mutex", "spin_mutex"] }
subtle = { version = "2", default-features = false }
