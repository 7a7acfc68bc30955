[package]
name = "signaling_relay"
version = "0.1.0"
edition = "2021"
publish = false

[dependencies]
serde_json = "1"
ws = { version = "0.9", features = ["ssl"] }
openssl = "0.10"
clap = { version = "4", features = ["derive"] }
rusturn = "*"
rustun = "*"
fibers_global = "*"
trackable = "*"
