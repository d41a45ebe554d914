[package]
name = "wstunnel"
version = "0.1.0"
edition = "2021"
publish = false

[dependencies]
anyhow = "1"
base64 = "0.22"
clap = { version = "4", features = ["derive", "env"] }
config = { version = "*", default-features = false, features = ["yaml", "toml", "json"] }
fdlimit = "0.3"
hyper = "1"
serde = { version = "1", features = ["derive"] }
serde_with = "3"
tokio = { version = "1", features = ["rt-multi-thread", "macros"] }
tokio-rustls = { version = "0.26", default-features = false }
tracing = "0.1"
tracing-subscriber = { version = "0.3", features = ["env-filter"] }
url = { version = "2", features = ["serde"] }
