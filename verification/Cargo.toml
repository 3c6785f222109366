[package]
name = "stream_prism"
version = "0.1.0"
edition = "2021"
publish = false

[dependencies]
serde = { version = "1", features = ["derive"] }
serde_json = "1"
serde_json_path = "*"
serde_yaml = "*"
regex = "1"
reqwest = { version = "*", default-features = false, features = ["json"] }
chrono = "*"
urlencoding = "*"
rss = "*"
axum = "*"
tokio = { version = "1", features = ["full"] }
tower-http = { version = "*", features = ["trace"] }
tracing = "*"
tracing-subscriber = { version = "*", features = ["env-filter"] }
