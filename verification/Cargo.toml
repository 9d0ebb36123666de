[package]
name = "dei_adventures"
version = "0.1.0"
edition = "2021"
publish = false

[dependencies]
argh = "0.1"
argon2 = "0.5"
aws-config = "1"
aws-sdk-ses = "1"
axum = { version = "0.6", features = ["headers"] }
menv = "*"
rand = "0.8"
rusqlite = { version = "0.31", features = ["bundled"] }
serde = { version = "1", features = ["derive"] }
tokio = { version = "1", features = ["macros", "rt-multi-thread", "signal"] }
tower-http = { version = "0.4", features = ["cors"] }
tracing = "0.1"
tracing-subscriber = "0.3"
