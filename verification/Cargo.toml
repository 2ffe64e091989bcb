[package]
name = "http_dragonfly"
version = "0.1.0"
edition = "2021"
publish = false

[dependencies]
regex = "*"
jaq-interpret = "*"
jaq-parse = "*"
serde_json = "*"
http = "*"
clap = { version = "*", features = ["derive"] }
serde = { version = "*", features = ["derive"] }
serde_yaml = "*"
tokio = { version = "*", features = ["full"] }
hyper = { version = "*", features = ["full"] }
hyper-util = { version = "*", features = ["full"] }
http-body-util = "*"
hyper-rustls = { version = "*", features = ["webpki-roots"] }
rustls = "*"
rustls-pemfile = "*"
futures-util = "*"
tracing = "*"
tracing-subscriber = { version = "*", features = ["env-filter", "json"] }
uuid = { version = "*", features = ["v4"] }
anyhow = "*"
