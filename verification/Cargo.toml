[package]
name = "vmess_kdf"
version = "0.1.0"
edition = "2021"
publish = false

[dependencies]
sha2 = "0.9"

[dev-dependencies]
md-5 = "0.9"
uuid = "*"
