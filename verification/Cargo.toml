[package]
name = "liberum_core"
version = "0.1.0"
edition = "2021"
publish = false

[dependencies]
anyhow = "1"
base64 = "0.22"
bincode = "1"
blake3 = "1"
bs58 = "0.5"
clap = { version = "4", features = ["derive"] }
homedir = "0.3"
libp2p = { version = "0.54", default-features = false, features = ["ed25519"] }
rand = "0.8"
rusqlite = { version = "0.32", features = ["bundled"] }
serde = { version = "1", features = ["derive"] }
serde_json = "1"
tabled = "0.16"
thiserror = "1"
uuid = { version = "1", features = ["v4", "serde"] }
