[package]
name = "securechat"
version = "0.1.0"
edition = "2021"
publish = false

[dependencies]
ring = "*"
tokio = { version = "*", features = ["full"] }
anyhow = "*"
hex = "*"
console = "*"
