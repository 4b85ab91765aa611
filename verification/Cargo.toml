[package]
name = "license_audit"
version = "0.1.0"
edition = "2021"
publish = false

[dependencies]
cargo-lock = "*"
lazy_static = "*"
serde = { version = "*", features = ["derive"] }
serde_json = "*"
thiserror = "*"
url = { version = "*", features = ["serde"] }
