[package]
name = "ndrpc"
version = "0.1.0"
edition = "2021"
publish = false

[dependencies]
anyhow = "1"
chrono = "0.4"
crossterm = "0.24"
discord-rich-presence = "0.2"
minreq = { version = "2", features = ["https", "json-using-serde"] }
serde = { version = "1", features = ["derive"] }
serde_yaml = "0.9"
sys-info = "0.9"
sysinfo = "0.29"
wmi = "0.11"
