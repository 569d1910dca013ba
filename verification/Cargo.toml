[package]
name = "helixlauncher_core"
version = "0.1.0"
edition = "2021"
publish = false

[dependencies]
sha1 = "0.10"
sha2 = "0.10"
hex = "0.4"
zip = { version = "0.6", default-features = false, features = ["deflate"] }
serde = { version = "1", features = ["derive"] }
serde_json = "1"
tokio = { version = "1", features = ["rt", "rt-multi-thread", "macros", "fs", "process", "io-util"] }
reqwest = { version = "0.11", default-features = false, features = ["rustls-tls"] }
futures = "0.3"
dirs = "5"
tempfile-fast = "0.3"
