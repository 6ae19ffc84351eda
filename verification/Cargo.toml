[package]
name = "jobpool"
version = "0.1.0"
edition = "2021"
publish = false

[dependencies]
ulid = "*"
chrono = "*"
serde = { version = "*", features = ["derive"] }
tokio = { version = "*", features = ["macros", "rt-multi-thread", "sync", "time", "net"] }
axum = "*"
