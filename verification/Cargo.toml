[package]
name = "nfc-wedge"
version = "0.1.0"
edition = "2021"
publish = false

[dependencies]
ndef-rs = "*"
serde = { version = "1", features = ["derive"] }
serde_json = "1"
anyhow = "1"
auto-launch = "*"
chrono = "0.4"
crossbeam-channel = "0.5"
directories = "*"
eframe = { version = "*", default-features = false, features = ["glow", "x11", "default_fonts"] }
enigo = "*"
pcsc = "*"
tracing = "0.1"
tracing-subscriber = { version = "0.3", features = ["env-filter"] }
tray-icon = "*"
