[package]
name = "boss"
version = "0.1.0"
edition = "2021"
publish = false

[dependencies]
askama = "=0.16.1"
async-channel = "=2.5.0"
async-io = "=2.6.0"
async-signal = "=0.2.14"
embassy-futures = "=0.1.2"
env_logger = "=0.11.11"
futures = "=0.3.34"
futures-lite = "=2.6.1"
if-addrs = "=0.15.0"
log = "=0.4.35"
rand = "=0.8.8"
rumqttc = { version = "=0.24.0", default-features = false }
serde = { version = "=1.0.229", features = ["derive"] }
serde_json = "=1.0.154"
socket2 = "=0.5.10"
thiserror = "=2.0.21"
