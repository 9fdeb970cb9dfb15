[package]
name = "op-cache"
version = "0.1.0"
edition = "2021"
publish = false

[dependencies]
anyhow = "1"
console = "*"
fs2 = "*"
humantime = "*"
serde = { version = "1", features = ["derive"] }
serde_json = "1"
toml = "*"
