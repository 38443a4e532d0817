[package]
name = "stowaway"
version = "0.1.0"
edition = "2021"
publish = false

[dependencies]
clap = "4"
dirs = "5"
glob = "0.3"
serde = { version = "1", features = ["derive"] }
serde_json = "1"
serde_yaml = "0.9"
sha2 = "0.10"
thiserror = "1"
tracing = "0.1"
tracing-subscriber = { version = "0.3", features = ["env-filter", "json"] }
walkdir = "2"

[dev-dependencies]
tempfile = "3"
