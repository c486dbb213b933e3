[package]
name = "kuberaid"
version = "0.1.0"
edition = "2021"
publish = false

[dependencies]
chrono = "=0.4.45"
serde = { version = "=1.0.229", features = ["derive"] }
serde_json = "=1.0.154"
serde_yaml = "=0.9.34"
tokio = { version = "=1.54.1", features = ["full"] }
tokio-util = { version = "=0.7.20", features = ["codec"] }
tokio-stream = { version = "=0.1.19", features = ["sync", "net"] }
futures = "=0.3.34"
thiserror = "=2.0.21"
anyhow = "=1.0.104"
tracing = "=0.1.44"
tracing-subscriber = "=0.3.23"
clap = { version = "=4.6.7", features = ["derive", "env"] }
nix = { version = "=0.31.3", features = ["hostname"] }
kube = { version = "=5.0.0", features = ["runtime", "derive", "unstable-runtime"] }
k8s-openapi = { version = "=0.29.0", features = ["latest"] }
schemars = "=1.2.3"
