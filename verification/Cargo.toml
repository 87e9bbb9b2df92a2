[package]
name = "udp_director"
version = "0.1.0"
edition = "2021"
publish = false

[dependencies]
anyhow = "=1.0.104"
dashmap = "=6.2.1"
futures = "=0.3.34"
hex = "=0.4.3"
http-body-util = "=0.1.5"
hyper = { version = "=1.12.0", features = ["server", "http1"] }
hyper-util = { version = "=0.1.21", features = ["tokio"] }
k8s-openapi = { version = "=0.27.1", features = ["latest"] }
kube = { version = "=3.1.0", default-features = false, features = ["client"] }
lazy_static = "=1.5.1"
prometheus = { version = "=0.14.0", default-features = false }
serde = { version = "=1.0.229", features = ["derive"] }
serde_json = "=1.0.154"
serde_yaml = "=0.9.34"
tokio = { version = "=1.54.1", features = ["full"] }
tracing = "=0.1.44"
tracing-subscriber = { version = "=0.3.23", features = ["env-filter"] }
uuid = { version = "=1.29.0", features = ["v4"] }
