[package]
name = "s_rack"
version = "0.1.0"
edition = "2021"
publish = false

[dependencies]
uuid = { version = "=1.29.0", features = ["v4"] }
hound = "=3.5.1"
rand = "=0.8.8"
serde = { version = "=1.0.229", features = ["derive"] }
rmp-serde = "=1.3.1"
futures = "=0.3.34"
freeverb = "=0.2.0"
egui = "0.28"
