[package]
name = "imap_server"
version = "0.1.0"
edition = "2021"
publish = false

[dependencies]
base64 = "0.13"
sled = "0.34"
sodiumoxide = "0.2"
easy_password = "*"
rand = "0.8"
tokio = { version = "1", features = ["full"] }
tokio-util = { version = "0.7", features = ["codec"] }
futures = "0.3"
