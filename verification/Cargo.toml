[package]
name = "super_quinn"
version = "0.1.0"
edition = "2021"
publish = false

[dependencies]
anyhow = "1.0.99"
quinn = "0.11"
rustls-pemfile = "2"
serde = { version = "1", features = ["derive"] }
thiserror = "2"
tokio = { version = "1.47.1", features = ["full"] }
toml = "0.8"
tracing = "0.1.41"
