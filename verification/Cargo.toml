[package]
name = "cran_proxy"
version = "0.1.0"
edition = "2021"
publish = false

[dependencies]
regex = "1"
http = "1"
url = "2"
axum = "0.7"
reqwest = { version = "0.12", default-features = false, features = ["rustls-tls", "stream", "http2"] }
tokio = { version = "1", features = ["macros", "rt-multi-thread", "net"] }
serde = { version = "1", features = ["derive"] }
serde_json = "1"
tracing = "0.1"
tracing-subscriber = { version = "0.3", features = ["json", "env-filter", "fmt"] }
futures-util = "0.3"
http-body-util = "0.1"
anyhow = "1"
