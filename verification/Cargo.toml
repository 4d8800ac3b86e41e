[package]
name = "status_server"
version = "0.1.0"
edition = "2021"
publish = false

[dependencies]
chrono = "=0.4.45"
fail = { version = "=0.3.0", features = ["failpoints"] }
futures = "0.1"
futures-locks = "=0.3.3"
hyper = "0.12"
mime = "=0.3.17"
protobuf = "2"
rev_lines = "=0.2.2"
rsperftools = "=0.2.3"
serde = { version = "1", features = ["derive"] }
serde_json = "1"
tempfile = "3"
tokio-fs = "0.1"
tokio-io = "0.1"
tokio-threadpool = "=0.1.18"
tokio-timer = "=0.2.13"
url = "=2.5.8"
walkdir = "=2.5.0"

[dev-dependencies]
nom = { version = "5", default-features = false, features = ["std"] }
