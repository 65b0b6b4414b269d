[package]
name = "sipnab"
version = "0.1.0"
edition = "2021"
publish = false

[dependencies]
anyhow = "=1.0.104"
bytes = "=1.12.1"
chrono = "=0.4.45"
crossbeam-channel = "=0.5.17"
libc = "=0.2.191"
parking_lot = "=0.12.5"
pcap = "2"
serde = { version = "=1.0.229", features = ["derive"] }
serde_json = "=1.0.154"
tracing = "=0.1.44"
tracing-subscriber = { version = "0.3", features = ["env-filter"] }
wasmi = "=1.1.0"

[dev-dependencies]
wat = "=1.263.0"
