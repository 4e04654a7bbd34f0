[package]
name = "opa_operator"
version = "0.1.0"
edition = "2021"
publish = false

[dependencies]
async-trait = "0.1"
futures = "0.3"
k8s-openapi = { version = "0.13", default-features = false, features = ["v1_22"] }
kube = { version = "0.63", default-features = false, features = ["client"] }
strum = { version = "0.23", features = ["derive"] }
tracing = "0.1"
