[package]
name = "lipnode"
version = "0.1.0"
edition = "2021"
publish = false

[dependencies]
bitcoin = "0.31"
bitcoincore-rpc = "0.17"
hex = "0.4"
home = "0.5"
serde = { version = "1", features = ["derive"] }
serde_json = "1"
sha1 = "0.10"
sqlite = "*"
thiserror = "1"
