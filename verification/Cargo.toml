[package]
name = "gen_upload"
version = "0.1.0"
edition = "2021"
publish = false

[dependencies]
anyhow = "=1.0.104"
counter = "=0.7.1"
diesel = { version = "=2.3.14", default-features = false, features = ["postgres_backend", "uuid"] }
diesel-async = { version = "=0.9.2", features = ["postgres"] }
rocket = "=0.5.2"
serde = { version = "=1.0.229", features = ["derive"] }
serde_json = "=1.0.154"
tokio = { version = "=1.54.1", features = ["fs", "io-util", "rt"] }
tracing = "=0.1.44"
uuid = { version = "=1.29.0", features = ["v4"] }
zip = { version = "=2.6.1", default-features = false, features = ["deflate"] }

[dev-dependencies]
regex = "=1.13.1"
