[package]
name = "neutun_control"
version = "0.1.0"
edition = "2021"
publish = false

[dependencies]
dashmap = "=6.2.1"
futures = "=0.3.34"
hmac-sha256 = "=1.1.15"
rand = "=0.8.8"
semver = "=1.0.28"
async-trait = "=0.1.92"
base64 = "=0.21.7"
colored = "=2.2.0"
log = "=0.4.34"
reqwest = { version = "=0.11.27", default-features = false, features = ["json"] }
serde = { version = "=1.0.229", features = ["derive"] }
serde_json = "=1.0.154"
thiserror = "=1.0.69"
tokio = { version = "=1.54.1", features = ["macros", "rt-multi-thread", "time"] }
tracing = "=0.1.44"
trust-dns-resolver = { version = "=0.23.2", default-features = false }
warp = { version = "=0.3.7", default-features = false, features = ["websocket"] }
