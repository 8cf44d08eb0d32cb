[package]
name = "cterm"
version = "0.1.0"
edition = "2021"
publish = false

[dependencies]
anyhow = "1"
directories = "=5.0.1"
libc = "=0.2.191"
log = "=0.4.35"
prost = "=0.13.5"
semver = "=1.0.28"
serde = { version = "=1.0.229", features = ["derive"] }
serde_json = "=1.0.154"
sha2 = "=0.10.9"
thiserror = "=1.0.69"
tokio = { version = "1", features = ["macros", "net", "rt", "signal", "sync", "time"] }
toml = "=0.8.23"
uuid = { version = "=1.29.0", features = ["v4"] }
