[package]
name = "mc_ingress"
version = "0.1.0"
edition = "2021"
publish = false

[dependencies]
evalexpr = "11"
k8s-openapi = { version = "0.25", features = ["latest"] }
kube = { version = "1.1", features = ["runtime"] }
serde = { version = "1", features = ["derive"] }
serde_json = "1"
strip-ansi-escapes = "*"
tokio = { version = "1", features = ["full"] }
tokio-splice2 = "*"
tracing = "0.1"
tracing-error = "0.2"
tracing-subscriber = { version = "0.3", features = ["env-filter"] }
