[package]
name = "edge_tts"
version = "0.1.0"
edition = "2021"
publish = false

[dependencies]
anyhow = "1"
hex = "0.4"
native-tls = "0.2"
rand = "0.8"
sha2 = "0.10"
socks = "0.3"
tungstenite = { version = "0.21", features = ["native-tls"] }
url = "2"
uuid = { version = "1", features = ["v4"] }
xml-rs = "0.8"
