[package]
name = "alpha_ray"
version = "0.1.0"
edition = "2021"
publish = false

[dependencies]
bytes = "1"
fastrand = "2"
uuid = "1"
tokio = { version = "1", features = ["full"] }
tokio-util = { version = "0.7", features = ["codec"] }
rustls = "0.23"
webpki-roots = "*"
hyper = { version = "1", features = ["full"] }
hyper-util = { version = "0.1", features = ["tokio"] }
http-body-util = "0.1"
fast-socks5 = "*"
anyhow = "1"
thiserror = "*"
tracing = "0.1"
tracing-subscriber = { version = "0.3", features = ["env-filter", "local-time"] }
time = { version = "0.3", features = ["local-offset", "formatting"] }
async-trait = "0.1"
