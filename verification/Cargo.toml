[package]
name = "hwt_core"
version = "0.1.0"
edition = "2021"
publish = false

[dependencies]
natord = "*"
uuid = { version = "*", features = ["v4"] }
chrono = "*"
serde = { version = "*", features = ["derive"] }
serde_json = "*"
toml = "*"
