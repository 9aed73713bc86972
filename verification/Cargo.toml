[package]
name = "hc_dpki"
version = "0.1.0"
edition = "2021"
publish = false

[dependencies]
base64 = "=0.10.1"
reed-solomon = "=0.2.1"
dryoc = { version = "=2.0.0", default-features = false, features = ["std"] }
getrandom = "=0.4.3"
zeroize = "=1.9.1"
serde = { version = "=1.0.229", features = ["derive"] }
serde_json = "=1.0.154"

[dev-dependencies]
rustc-serialize = "=0.3.25"
