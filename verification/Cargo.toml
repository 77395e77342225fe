[package]
name = "neoshell_core"
version = "0.1.0"
edition = "2021"
publish = false

[dependencies]
base64 = "0.22"
md-5 = "0.10"
tokio = { version = "1", default-features = false, features = ["sync"] }
serde = { version = "1", features = ["derive"] }
serde_json = "1"
dirs = "5"
parking_lot = "0.12"
ureq = { version = "2", features = ["json"] }
uuid = { version = "1", features = ["v4"] }
ssh2 = "0.9"
env_logger = "0.11"
