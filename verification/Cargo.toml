[package]
name = "socks5_proxy"
version = "0.1.0"
edition = "2021"
publish = false

[dependencies]
byteorder = "1"
futures = "0.3"
nom = { version = "5", default-features = false, features = ["std"] }
tokio = { version = "0.2", features = ["full"] }
