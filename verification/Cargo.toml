[package]
name = "gateway-api"
version = "0.1.0"
edition = "2021"
publish = false

[dependencies]
kube = { version = "=5.0.0", default-features = false, features = ["derive"] }
k8s-openapi = { version = "=0.29.0", features = ["latest"] }
schemars = "=1.2.3"
serde = { version = "=1.0.229", features = ["derive"] }
serde_json = "=1.0.154"

[dev-dependencies]
regex = "=1.13.1"
