[package]
name = "sto"
version = "0.1.0"
edition = "2021"
publish = false

[dependencies]
ctrlc = "=3.5.2"
env_logger = "=0.11.11"
lazy_static = "=1.5.1"
log = "=0.4.34"
proc-macro2 = "=1.0.107"
quote = "=1.0.47"
rand = "=0.8.8"
serde = { version = "=1.0.229", features = ["derive"] }
serde_json = "=1.0.154"
syn = { version = "=2.0.119", features = ["full"] }
thiserror = "=1.0.69"
tokio = { version = "=1.54.1", features = ["io-util", "macros", "net", "rt", "rt-multi-thread", "sync", "time"] }
