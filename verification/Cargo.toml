[package]
name = "velocache"
version = "0.1.0"
edition = "2021"
publish = false

[dependencies]
anyhow = "1"
atty = "0.2"
bincode = "1"
chrono = { version = "0.4", features = ["serde"] }
clap = { version = "4", features = ["derive"] }
config = { version = "0.13", default-features = false, features = ["toml"] }
futures-util = { version = "0.3", features = ["sink"] }
http = "0.2"
http-serde = "1"
hyper = { version = "0.14", features = ["full"] }
lazy_static = "1"
lru = "0.12"
md5 = "0.7"
rcgen = { version = "0.11", features = ["pem", "x509-parser"] }
rustls-pemfile = "1"
serde = { version = "1", features = ["derive"] }
serde_json = "1"
tokio = { version = "1", features = ["full"] }
tokio-rustls = "0.24"
tracing = "0.1"
tracing-subscriber = "0.3"
warp = "0.3"
