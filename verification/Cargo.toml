[package]
name = "ws_rpc"
version = "0.1.0"
edition = "2021"
publish = false

[dependencies]
anyhow = "=1.0.104"
bytes = "=1.12.1"
chrono = "=0.4.45"
clap = { version = "=4.6.7", features = ["derive"] }
env_logger = "=0.10.2"
futures-util = { version = "=0.3.34", features = ["sink"] }
log = "=0.4.34"
tokio = { version = "=1.54.1", features = ["rt", "net", "time", "macros"] }
tokio-websockets = { version = "=0.4.1", features = ["server", "sha1_smol"] }
websocket-lite = "=0.5.2"
