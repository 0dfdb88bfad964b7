[package]
name = "mithka_tdlib"
version = "0.1.0"
edition = "2021"
publish = false

[dependencies]
serde = { version = "=1.0.229", features = ["derive"] }
serde_json = "=1.0.154"
chrono = "=0.4.45"
clap = { version = "=4.6.7", features = ["derive", "env"] }
ctrlc = "=3.5.2"
feed-rs = "=2.4.0"
mediatype = "=0.21.0"
ureq = "=2.12.1"
libloading = "=0.8.9"
