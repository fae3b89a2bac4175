[package]
name = "aochatproxy"
version = "5.0.0"
edition = "2021"
publish = false

[dependencies]
dashmap = "5"
env_logger = "0.10"
hyper = { version = "0.14", features = ["client", "http1", "tcp"] }
hyper-proxy = { version = "0.9", default-features = false }
hyper-rustls = { version = "0.24", features = ["webpki-roots"] }
libc = "0.2"
log = "0.4"
nanoserde = "0.1"
serde_urlencoded = "0.7"
tokio = { version = "1", features = ["rt-multi-thread", "macros", "net", "sync", "time"] }
