[package]
name = "remotefs_ftp"
version = "0.5.0"
edition = "2021"
publish = false

[dependencies]
chrono = "=0.4.45"
env_logger = "=0.11.11"
futures-io = "=0.3.34"
log = "=0.4.35"
remotefs = { version = "=1.0.1", features = ["async", "find"] }
rustls-pki-types = "=1.15.1"
suppaftp = { version = "=12.2.1", features = ["tokio", "tokio-rustls-ring"] }
tokio = { version = "=1.54.1", features = ["io-util", "net", "rt", "sync"] }
webpki-roots = "=1.0.10"
