[package]
name = "voxel_launcher"
version = "0.1.0"
edition = "2021"
publish = false

[dependencies]
home = "=0.5.12"
octocrab = "=0.41.2"
reqwest = { version = "=0.12.28", default-features = false, features = ["rustls-tls"] }
serde = { version = "=1.0.229", features = ["derive"] }
tokio = { version = "=1.53.2", features = ["macros", "process", "rt-multi-thread"] }
tokio-process-stream = "=0.4.1"
tokio-stream = "=0.1.19"
toml = "=1.1.7"
zip-extract = "=0.4.1"
