[package]
name = "codestrux"
version = "0.1.0"
edition = "2021"
publish = false

[dependencies]
bytes = "=1.12.1"
futures-util = "=0.3.34"
reqwest = { version = "=0.12.28", default-features = false, features = ["rustls-tls", "stream", "gzip", "brotli"] }
serde = { version = "=1.0.229", features = ["derive"] }
serde_json = "=1.0.154"
sysinfo = "=0.40.1"
tokio = { version = "=1.54.1", features = ["rt", "sync", "time", "fs", "io-util", "macros"] }
wgpu = "=30.0.1"
wmi = "=0.18.4"
