[package]
name = "govee"
version = "0.1.0"
edition = "2021"
publish = false

[dependencies]
anyhow = "1"
arc-swap = "1"
async-channel = "2"
async-trait = "0.1"
chrono = "0.4"
clap = { version = "4", features = ["derive"] }
data-encoding = "2"
log = "0.4"
mosquitto-rs = "*"
once_cell = "1"
openssl = "0.10"
p12 = "0.6"
parking_lot = "0.12"
serde = { version = "1", features = ["derive"] }
serde_json = "1"
thiserror = "1"
tokio = { version = "1", features = ["macros", "rt", "rt-multi-thread", "sync", "time"] }
uuid = { version = "1", features = ["v4"] }
