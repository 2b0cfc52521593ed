[package]
name = "trashy_bot"
version = "0.1.0"
edition = "2021"
publish = false

[dependencies]
rand = "0.8"
chrono = "0.4"
uwuify = "0.2"
serde = { version = "1", features = ["derive"] }
serde_json = "1"
toml = "0.5"
thiserror = "1"
futures = "0.3"
tokio = { version = "1", features = ["full"] }
tracing = "0.1"
tracing-subscriber = { version = "0.3", features = ["env-filter"] }
time = "0.3"
sqlx = { version = "0.5", default-features = false, features = ["runtime-tokio-rustls", "postgres"] }
twilight-gateway = "0.8"
twilight-http = "0.8"
twilight-model = "0.8"
twilight-cache-inmemory = "0.8"
serenity = "0.10"
