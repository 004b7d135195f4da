[package]
name = "cargo-scout-audit"
version = "0.1.0"
edition = "2021"
publish = false

[dependencies]
chrono = { version = "0.4", default-features = false, features = ["std"] }
regex = "1"
semver = "1"
serde = { version = "1", features = ["derive"] }
serde_json = "1"
toml = "0.8"
anyhow = "1"
clap = { version = "4", features = ["derive"] }
env_logger = "0.10"
log = "0.4"
cargo_metadata = "0.18"
ansi_term = "0.12"
atty = "0.2"
tera = { version = "1", default-features = false }
lazy_static = "1"
itertools = "0.12"
dunce = "1"
scout-audit-internal = { version = "*", default-features = false }
