[package]
name = "rift"
version = "0.1.0"
edition = "2021"
publish = false

[dependencies]
clap = { version = "4", features = ["derive"] }
rustc-hash = "2"
serde = { version = "1", features = ["derive"] }
serde_json = "1"
sigpipe = "0.1"
tokio = { version = "1", features = ["rt", "sync", "macros", "time", "io-util", "net"] }
tracing = "0.1"
