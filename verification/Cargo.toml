[package]
name = "ws_uring"
version = "0.1.0"
edition = "2021"
publish = false

[dependencies]
tungstenite = { version = "0.24", features = ["rustls-tls-webpki-roots"] }
rustls = { version = "0.23", default-features = false, features = ["ring", "std"] }
