[package]
name = "navigator_bootstrap"
version = "0.1.0"
edition = "2021"
publish = false

[dependencies]
base64 = "0.22"
bollard = "0.18"
clap = { version = "4", features = ["derive", "env"] }
futures = "0.3"
miette = "7"
rustls = "0.23"
serde = { version = "1", features = ["derive"] }
serde_yaml = "0.9"
tokio = { version = "1", features = ["full"] }
tokio-rustls = "0.26"
tracing-subscriber = { version = "0.3", features = ["env-filter"] }
url = "2"
