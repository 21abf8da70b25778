[package]
name = "nexus"
version = "0.1.0"
edition = "2021"
publish = false

[dependencies]
serde_json = "1"
semver = "1"
serde = { version = "1", features = ["derive"] }
log = "0.4"
fern = { version = "0.7", features = ["colored"] }
humantime = "2"
rocket = { version = "0.5", features = ["json"] }
reqwest = { version = "0.12", default-features = false, features = ["rustls-tls"] }
tokio = { version = "1", features = ["sync", "rt-multi-thread", "macros"] }
