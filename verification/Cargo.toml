[package]
name = "ironvault"
version = "0.1.0"
edition = "2021"
publish = false

[dependencies]
aes-gcm = "0.10"
argon2 = "0.5"
blake3 = "1"
rand = "0.8"
uuid = { version = "1", features = ["v4"] }
zeroize = { version = "1", features = ["derive"] }
zstd = "0.13"
serde = { version = "1", features = ["derive"] }
serde_json = "1"
rusqlite = { version = "0.31", features = ["bundled-sqlcipher-vendored-openssl"] }
tokio = { version = "1", features = ["rt-multi-thread"] }
gtk4 = "0.9"
relm4 = "0.9"
