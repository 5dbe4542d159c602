[package]
name = "bridge_core"
version = "0.1.0"
edition = "2021"
publish = false

[dependencies]
serde_json = "*"
shlex = "*"
base64 = "*"
chrono = "*"
serde = { version = "*", features = ["derive"] }
tokio = { version = "*", features = ["macros", "rt-multi-thread", "process", "io-util", "fs", "sync", "time", "net"] }
axum = { version = "*", features = ["ws"] }
futures-util = "*"
reqwest = { version = "*", default-features = false, features = ["json", "multipart"] }
