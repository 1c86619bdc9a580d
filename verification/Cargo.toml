[package]
name = "server_discover"
version = "0.1.0"
edition = "2021"
publish = false

[dependencies]
base64 = "=0.13.1"
craftping = { version = "=0.8.0", features = ["async-tokio"] }
dotenv = "=0.15.0"
futures = "=0.3.34"
mongodb = "=2.8.2"
nix = { version = "=0.31.3", features = ["user"] }
serde = { version = "=1.0.229", features = ["derive"] }
serde_json = "=1.0.151"
serde_yaml = "=0.9.34"
tokio = { version = "=1.53.2", features = ["full"] }
