[package]
name = "serial_debugger"
version = "0.1.12"
edition = "2021"
publish = false

[dependencies]
encoding_rs = "0.8"
csv = "1"
uuid = { version = "1", features = ["v4"] }
chrono = "0.4"
serde = { version = "1", features = ["derive"] }
serde_json = "1"
dirs = "6"
serialport = { version = "4", default-features = false }
async-channel = "2"
