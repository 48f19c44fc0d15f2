[package]
name = "volume_locker"
version = "0.1.0"
edition = "2021"
publish = false

[dependencies]
semver = "*"
serde = { version = "*", features = ["derive"] }
serde_json = "*"
log = "*"
simplelog = "*"
single-instance = "*"
auto-launch = "*"
faccess = "*"
ureq = { version = "*", default-features = false }

[dev-dependencies]
regex-lite = "*"
