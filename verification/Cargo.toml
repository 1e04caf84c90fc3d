[package]
name = "audit_logger"
version = "0.1.0"
edition = "2021"
publish = false

[dependencies]
sha2 = "=0.10.9"
hex = "=0.4.3"
serde_json = "=1.0.154"
uuid = { version = "=1.29.0", features = ["serde"] }
serde = { version = "=1.0.229", features = ["derive"] }
anyhow = "=1.0.104"
log = "=0.4.34"
env_logger = "=0.10.2"
dotenv = "=0.15.0"
shellexpand = "=3.1.2"
chrono = { version = "=0.4.45", features = ["serde"] }
validator = { version = "=0.16.1", features = ["derive"] }
tokio = { version = "=1.54.1", features = ["rt-multi-thread", "macros"] }
actix-web = { version = "=4.18.1", default-features = false, features = ["macros"] }
actix-cors = "=0.7.2"
sqlx = { version = "=0.6.3", default-features = false, features = ["runtime-tokio-rustls", "postgres", "uuid", "chrono", "json", "macros"] }
solana-sdk = "=1.18.26"
