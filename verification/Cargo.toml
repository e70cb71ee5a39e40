[package]
name = "tunnel_proxy"
version = "0.1.0"
edition = "2021"
publish = false

[dependencies]
argh = "0.1"
regex = "1"
tokio = { version = "1", features = ["io-util", "macros", "net", "rt-multi-thread"] }
tokio-native-tls = "0.3"
