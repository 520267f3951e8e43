[package]
name = "ergvein_rusty"
version = "0.1.0"
edition = "2021"
publish = false

[dependencies]
bitcoin = "=0.26.2"
byteorder = "1"
bytes = "1"
clap = "2.34"
dashmap = "4"
fs2 = "0.4"
futures = "0.3"
hex = "0.4"
lazy_static = "1"
prometheus = "0.12"
rand = "0.8"
reqwest = { version = "0.11", default-features = false, features = ["json", "rustls-tls"] }
rocksdb = { version = "0.16", default-features = false }
serde = { version = "1", features = ["derive"] }
tokio = { version = "1", features = ["full"] }
tokio-stream = "0.1"
tokio-util = { version = "0.6", features = ["codec"] }
warp = { version = "0.3", default-features = false }
