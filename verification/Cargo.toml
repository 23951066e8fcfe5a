[package]
name = "client"
version = "0.1.0"
edition = "2021"
publish = false

[dependencies]
bytes = "1"
crossterm = { version = "0.29", features = ["event-stream"] }
futures = "0.3"
image = { version = "0.25", default-features = false, features = ["png"] }
itertools = "0.14"
lazy_static = "1"
nokhwa = { version = "0.10", features = ["input-native"] }
openh264 = "0.9"
reqwest = { version = "0.12", default-features = false, features = ["json"] }
serde = { version = "1", features = ["derive"] }
serde_json = "1"
termsize = "0.1"
textwrap = "0.16"
tokio = { version = "1", features = ["full"] }
tokio-tungstenite = "0.28"
tracing = "0.1"
tracing-appender = "0.2"
tracing-subscriber = "0.3"
webrtc = "0.14"
whoami = "1"
