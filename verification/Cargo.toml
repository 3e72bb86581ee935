[package]
name = "awachat_backend"
version = "0.1.0"
edition = "2021"
publish = false

[dependencies]
tokio = { version = "=1.53.2", features = ["rt-multi-thread", "macros", "sync", "time"] }
warp = { version = "=0.4.3", features = ["server", "websocket"] }
futures-util = "=0.3.34"
deadpool = "=0.13.1"
deadpool-sqlite = "=0.14.0"
serde = { version = "=1.0.229", features = ["derive"] }
serde_json = "=1.0.151"
log = "=0.4.34"
env_logger = "=0.11.11"
