[package]
name = "server_info"
version = "0.1.0"
edition = "2021"
publish = false

[dependencies]
chrono = "=0.4.45"
chrono-tz = "=0.8.6"
eframe = { version = "=0.22.0", default-features = false, features = ["default_fonts", "glow"] }
serde_json = { version = "=1.0.154", features = ["float_roundtrip"] }
sysinfo = "=0.29.11"
