[package]
name = "lxmonitor"
version = "0.1.0"
edition = "2021"
publish = false

[dependencies]
local-ip-address = "0.6"
parking_lot = "0.12"
pcap = "2"
serde = { version = "1", features = ["derive"] }
serde_json = "1"
socket2 = { version = "0.5", features = ["all"] }
tokio = { version = "1", features = ["full"] }
