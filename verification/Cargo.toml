[package]
name = "torrentfs"
version = "0.1.0"
edition = "2021"
publish = false

[dependencies]
fuser = { version = "*", default-features = false }
hex = "0.4"
libc = "0.2"
rusqlite = { version = "*", features = ["bundled"] }
serde = { version = "1", features = ["derive"] }
serde_json = "1"
sha1_smol = "1"
thiserror = "*"
toml = "*"
tracing = "0.1"
