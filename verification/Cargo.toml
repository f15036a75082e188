[package]
name = "auth_core"
version = "0.1.0"
edition = "2021"
publish = false

[dependencies]
argon2 = { version = "0.5", features = ["std"] }
hmac = "0.12"
sha2 = "0.10"
axum = "0.7"
tokio = { version = "1", features = ["full"] }
tower-http = { version = "0.5", features = ["cors", "fs"] }
diesel = { version = "2", features = ["sqlite", "r2d2", "chrono"] }
dotenvy = "0.15"
serde = { version = "1", features = ["derive"] }
chrono = { version = "0.4", features = ["serde"] }
