[package]
name = "web_server"
version = "0.1.0"
edition = "2021"
publish = false

[dependencies]
argon2 = "=0.5.3"
axum = "=0.8.9"
axum-login = "=0.18.0"
minijinja = "=2.24.0"
serde = { version = "=1.0.229", features = ["derive"] }
sqlx = { version = "=0.8.6", default-features = false, features = ["sqlite", "runtime-tokio", "macros", "derive"] }
time = "=0.3.55"
tokio = { version = "=1.54.1", features = ["full"] }
tower-sessions = "=0.14.0"
tower-sessions-sqlx-store = { version = "=0.15.0", features = ["sqlite"] }
