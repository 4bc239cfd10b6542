[package]
name = "sysguard"
version = "0.1.0"
edition = "2021"
publish = false

[dependencies]
anyhow = "1"
bcc = "*"
bincode = "1"
dashmap = "5"
flate2 = "1"
hex = "0.4"
libc = "0.2"
rand = "0.8"
ring = "0.17"
serde = { version = "1", features = ["derive"] }
serde_json = "1"
tensorflow = "*"
tokio = { version = "1", features = ["rt-multi-thread", "time"] }
tracing = "0.1"
