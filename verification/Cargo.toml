[package]
name = "xmpp_proxy"
version = "0.1.0"
edition = "2021"
publish = false

[dependencies]
quick-xml = "0.37"
tokio = { version = "1", features = ["full"] }
tokio-rustls = { version = "0.26", default-features = false, features = ["ring", "logging", "tls12"] }
tokio-tungstenite = "0.24"
futures-util = "0.3"
rustls = { version = "0.23", default-features = false, features = ["ring", "std", "logging", "tls12"] }
rustls-native-certs = "0.8"
trust-dns-resolver = "0.23"
serde = { version = "1", features = ["derive"] }
tracing = "0.1"
