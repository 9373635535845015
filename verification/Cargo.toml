[package]
name = "spade_api"
version = "0.1.0"
edition = "2021"
publish = false

[dependencies]
argon2 = "=0.6.0"
jsonwebtoken = { version = "=11.1.0", features = ["rust_crypto"] }
serde_json = "=1.0.151"
uuid = { version = "=1.27.0", features = ["v4"] }
ulid = "=3.0.0"
chrono = "=0.4.45"
serde = { version = "=1.0.229", features = ["derive"] }
tokio = { version = "=1.53.2", features = ["full"] }
axum = "=0.8.9"
tower-cookies = "=0.11.0"
tower-http = { version = "=0.7.1", features = ["cors"] }
dotenv = "=0.15.0"
