[package]
name = "memcore_storage"
version = "0.1.0"
edition = "2021"
publish = false

[dependencies]
sha2 = "=0.10.9"
hex = "=0.4.3"
chrono = { version = "=0.4.45", features = ["serde"] }
uuid = { version = "=1.29.0", features = ["v4", "serde"] }
serde = { version = "=1.0.229", features = ["derive"] }
serde_json = "=1.0.154"
async-trait = "=0.1.92"
tracing = "=0.1.44"
futures = "=0.3.34"
sqlx = { version = "=0.8.6", default-features = false, features = ["runtime-tokio", "sqlite", "postgres", "chrono", "uuid", "json", "macros"] }
qdrant-client = "1"
redis = { version = "*", features = ["tokio-comp", "connection-manager"] }
