[package]
name = "ray-rust"
version = "0.1.0"
edition = "2021"
publish = false

[dependencies]
anyhow = "1"
clap = { version = "3.2", features = ["cargo"] }
crossbeam = "0.8"
futures = "0.3"
hyper = { version = "0.14", features = ["server", "http1", "tcp"] }
image = { version = "0.24", default-features = false, features = ["png"] }
serde = { version = "1", features = ["derive"] }
serde_derive = "1"
serde_yaml = "0.9"
tokio = { version = "1", features = ["rt-multi-thread", "fs", "io-util"] }
tower-service = "0.3"
vecmath = "1"
