[package]
name = "server_h264"
version = "0.1.0"
edition = "2021"
publish = false

[dependencies]
anyhow = "1"
crossbeam-channel = "0.5"
env_logger = "*"
log = "0.4"
openh264 = "0.6"
softbuffer = "0.4"
tokio = { version = "1", features = ["rt", "net", "time", "io-util"] }
winit = "0.30"
