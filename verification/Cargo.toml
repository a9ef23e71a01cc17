[package]
name = "soundfx"
version = "0.1.0"
edition = "2021"
publish = false

[dependencies]
dashmap = "=5.5.3"
poise = "0.6"
sqlx = { version = "0.7", default-features = false, features = ["mysql", "runtime-tokio", "migrate"] }
tokio = { version = "1", features = ["rt-multi-thread", "macros", "process", "sync", "net"] }
axum = { version = "0.7", default-features = false, features = ["tokio", "http1"] }
prometheus = { version = "0.13", default-features = false }
lazy_static = "1"
log = "0.4"
env_logger = { version = "0.10", default-features = false }
dotenv = "0.15"
