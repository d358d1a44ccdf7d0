[package]
name = "kubvernor"
version = "0.1.0"
edition = "2021"
publish = false

[dependencies]
futures = "=0.3.34"
gateway-api = "=0.22.0"
itertools = "=0.15.0"
k8s-openapi = { version = "=0.28.0", features = ["latest"] }
kube = "=4.2.0"
kube-core = "=4.2.0"
lru_time_cache = "=0.11.11"
multimap = "=0.10.1"
serde = { version = "=1.0.229", features = ["derive"] }
serde_json = "=1.0.154"
tera = "=1.20.1"
thiserror = "=2.0.21"
tokio = { version = "=1.54.1", features = ["full"] }
tokio-stream = { version = "=0.1.19", features = ["net"] }
tracing = "=0.1.44"
typed-builder = "=0.23.2"
uuid = { version = "=1.29.0", features = ["v4"] }
