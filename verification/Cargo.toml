[package]
name = "openkite"
version = "0.1.0"
edition = "2021"
publish = false

[dependencies]
opaline = "=0.4.0"
serde = { version = "=1.0.229", features = ["derive"] }
serde_json = "=1.0.154"
toml = "=0.8.23"
dirs = "=7.0.0"
serde-saphyr = "=2.0.0"
kube = { version = "=5.0.0", features = ["runtime"] }
k8s-openapi = { version = "=0.29.0", features = ["latest"] }
tokio = { version = "=1.54.1", features = ["full"] }
futures = "=0.3.34"
http = "=1.5.0"
http-body-util = "=0.1.5"
notify = "=8.2.1"
anyhow = "=1.0.104"
tracing = "=0.1.44"
tracing-subscriber = "=0.3.23"
