[package]
name = "spark_search"
version = "0.1.0"
edition = "2021"
publish = false

[dependencies]
dashmap = "*"
url = "*"
serde = { version = "*", features = ["derive"] }
serde_json = "*"
axum = "*"
tokio = { version = "*", features = ["full"] }
sqlx = { version = "*", default-features = false, features = ["runtime-tokio", "postgres", "chrono"] }
chrono = { version = "*", features = ["serde"] }
tower = "*"
tower-http = { version = "*", features = ["cors"] }
tracing = "*"
tracing-subscriber = "*"
dotenvy = "*"
anyhow = "*"
thiserror = "*"
reqwest = { version = "*", default-features = false, features = ["json"] }
