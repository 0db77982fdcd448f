[package]
name = "game_broker"
version = "0.1.0"
edition = "2021"
publish = false

[dependencies]
nanoid = "*"
axum = { version = "0.6", features = ["headers"] }
tokio = { version = "1", features = ["macros", "rt-multi-thread", "sync", "time", "net"] }
serde = { version = "1", features = ["derive"] }
toml = "*"
