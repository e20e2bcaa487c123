[package]
name = "pointify"
version = "0.1.0"
edition = "2021"
publish = false

[dependencies]
base64 = "=0.22.1"
chrono = "=0.4.45"
nvml-wrapper = "=0.13.0"
serde = { version = "=1.0.229", features = ["derive"] }
serde_json = "=1.0.154"
dirs = "=7.0.0"
glob = "=0.3.4"
notify = "=8.2.1"
sysinfo = "=0.40.1"
nusb = "=0.2.9"
futures-lite = "=2.6.1"
serialport = { version = "=4.10.1", default-features = false }
reqwest = { version = "=0.12.28", default-features = false, features = ["json", "blocking", "rustls-tls"] }
wchisp = "*"
core-foundation = "=0.10.1"
