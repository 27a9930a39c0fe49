[package]
name = "nophp"
version = "0.1.0"
edition = "2021"
publish = false

[dependencies]
serde_json = "1"
pyo3 = "0.21"
pythonize = "0.21"
clap = { version = "4", features = ["derive"] }
tokio = { version = "1", features = ["full"] }
hyper = { version = "1", features = ["server", "http1"] }
hyper-util = { version = "0.1", features = ["tokio"] }
http-body-util = "0.1"
log = "0.4"
env_logger = "0.11"
color-eyre = "0.6"
thiserror = "1"
