[package]
name = "connectrpc"
version = "0.7.0"
edition = "2021"
publish = false

[dependencies]
base64 = "0.22"
buffa = "*"
bytes = "1"
flate2 = "1"
http = "1"
http-body = "1"
http-body-util = "0.1"
hyper = "1"
hyper-rustls = { version = "0.27", default-features = false, features = ["http1", "http2", "ring", "tls12"] }
hyper-util = { version = "0.1", features = ["client", "client-legacy", "http1", "http2", "tokio"] }
percent-encoding = "2"
rustls = { version = "0.23", default-features = false, features = ["ring", "std", "tls12"] }
serde = { version = "1", features = ["derive"] }
serde_json = "1"
tokio = { version = "1", features = ["rt", "sync", "time"] }
tower = { version = "0.5", features = ["util"] }
tracing = "0.1"
