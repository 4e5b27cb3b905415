[package]
name = "rustcost"
version = "0.1.0"
edition = "2021"
publish = false

[dependencies]
chrono = "0.4"
serde_json = "1"
serde = { version = "1", features = ["derive"] }
anyhow = "1"
tracing = "0.1"
tokio = { version = "1", features = ["rt-multi-thread", "macros", "sync"] }
async-trait = "0.1"
futures = "0.3"
http = "1"
kube = { version = "*", default-features = false, features = ["client", "runtime"] }
k8s-openapi = { version = "*", features = ["latest"] }
reqwest = { version = "0.12", default-features = false }
