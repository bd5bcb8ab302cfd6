[package]
name = "pods_operator"
version = "0.1.0"
edition = "2021"
publish = false

[dependencies]
axum = "0.8"
axum-prometheus = "0.8"
chrono = { version = "0.4", default-features = false, features = ["std"] }
futures = "0.3"
k8s-openapi = { version = "0.25", features = ["latest"] }
kube = { version = "1", features = ["runtime"] }
tokio = { version = "1", features = ["macros", "rt-multi-thread", "net", "signal"] }
tracing = "0.1"
tracing-subscriber = "0.3"
