[package]
name = "scrcpy_mask"
version = "0.1.0"
edition = "2021"
publish = false

[dependencies]
serde = { version = "1", features = ["derive"] }
serde_json = "1"
semver = "1"
tokio = { version = "1", features = ["rt-multi-thread", "sync", "net", "io-util", "time", "macros", "fs", "process"] }
tokio-util = "0.7"
axum = { version = "0.8", features = ["ws"] }
tower-http = { version = "0.6", features = ["fs", "cors"] }
rand = "0.9"
log = "0.4"
once_cell = "1"
crossbeam-channel = "0.5"
dirs = "*"
opener = { version = "*", default-features = false }
reqwest = { version = "0.12", default-features = false, features = ["json", "rustls-tls"] }
futures-util = "0.3"
half = "2"
