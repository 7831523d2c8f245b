[package]
name = "plrd"
version = "0.1.0"
edition = "2021"
publish = false

[dependencies]
rustix = { version = "1", features = ["time"] }
serde_json = "1"
tokio = { version = "1", features = ["rt", "time", "net", "macros"] }
tokio-tungstenite = "*"
futures-util = "0.3"
gpiocdev = "*"
thiserror = "2"
