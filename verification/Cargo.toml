[package]
name = "nestworth"
version = "0.1.0"
edition = "2021"
publish = false

[dependencies]
base64 = "0.22"
chrono = "0.4"
chrono-tz = "0.10"
image = { version = "0.25", default-features = false, features = ["png", "jpeg", "webp"] }
rust_decimal = "1"
serde = { version = "1", features = ["derive"] }
sqlx = { version = "0.8", default-features = false, features = ["sqlite", "runtime-tokio"] }
tokio = { version = "1", features = ["rt", "time", "sync"] }
uuid = { version = "1", features = ["v4", "v7"] }
