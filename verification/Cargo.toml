[package]
name = "bsky_bot"
version = "0.1.0"
edition = "2021"
publish = false

[dependencies]
chrono = "=0.4.45"
serde = { version = "=1.0.229", features = ["derive"] }
serde_with = "=3.24.0"
reqwest = { version = "=0.12.28", default-features = false, features = ["json", "rustls-tls"] }
tokio = { version = "=1.53.2", features = ["macros", "rt-multi-thread", "time"] }
tokio-cron-scheduler = { version = "=0.15.1", features = ["signal"] }
diesel = { version = "=2.3.13", features = ["sqlite", "r2d2", "chrono"] }
diesel_migrations = "=2.3.2"
dotenv = "=0.15.0"
futures = "=0.3.34"
libsqlite3-sys = { version = "=0.38.2", features = ["bundled"] }
