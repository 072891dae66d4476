[package]
name = "supervisor"
version = "0.1.0"
edition = "2021"
publish = false

[dependencies]
serde = { version = "*", features = ["derive"] }
time = { version = "*", features = ["std", "local-offset"] }
tokio = { version = "*", features = ["full"] }
toml = "*"
