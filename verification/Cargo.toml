[package]
name = "bnadmin"
version = "0.1.0"
edition = "2021"
publish = false

[dependencies]
pvpgn-hash-rs = "*"
rand = "*"
serde = { version = "*", features = ["derive"] }
tokio = { version = "*", features = ["full"] }
toml = "*"
