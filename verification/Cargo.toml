[package]
name = "tensor_container"
version = "0.1.0"
edition = "2021"
publish = false

[dependencies]
serde = { version = "=1.0.229", features = ["derive"] }
serde_json = "=1.0.154"
anyhow = "=1.0.104"
thiserror = "=1.0.69"
clap = { version = "=4.6.7", features = ["derive"] }
memmap2 = "=0.9.12"
serde_yaml = "=0.9.34"
cyrly = "=0.1.0"
repugnant-pickle = { version = "=0.0.1", features = ["torch"] }
ggml-sys = "=0.1.1"
