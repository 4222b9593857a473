[package]
name = "axum-tenancy"
version = "0.1.0"
edition = "2021"
publish = false

[dependencies]
anyhow = "=1.0.104"
dotenvy = "=0.15.7"
serde = { version = "=1.0.229", features = ["derive"] }
sqlx = { version = "=0.8.6", default-features = false, features = ["any", "postgres", "runtime-tokio", "sqlite", "uuid"] }
uuid = { version = "=1.29.0", features = ["serde", "v4"] }

[dev-dependencies]
tokio = { version = "=1.54.1", features = ["rt"] }
