[package]
name = "connectivity_monitor"
version = "0.1.0"
edition = "2021"
publish = false

[dependencies]
serde = { version = "1", features = ["derive"] }
sqlx = { version = "0.8", default-features = false, features = ["runtime-tokio", "sqlite", "migrate"] }
surge-ping = "0.8"
tokio = { version = "1", features = ["sync", "time", "rt"] }
