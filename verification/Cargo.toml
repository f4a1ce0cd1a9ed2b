[package]
name = "coupe"
version = "0.1.0"
edition = "2021"
publish = false

[dependencies]
fjall = "*"
jiff = "*"
axum = "*"
axum-proxy = "*"
bollard = "*"
reqwest = { version = "*", default-features = false }
tokio = { version = "*", features = ["full"] }
serde = { version = "*", features = ["derive"] }
serde_json = "*"
serde_yaml = "*"
dashmap = "*"
clap = { version = "*", features = ["derive"] }
futures = "*"
tower-service = "*"
