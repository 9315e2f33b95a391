[package]
name = "c19"
version = "0.1.0"
edition = "2021"
publish = false

[dependencies]
im = "15"
twox-hash = "1"
rand = { version = "0.8", features = ["small_rng"] }
serde = { version = "1", features = ["derive"] }
serde_json = "1"
serde_yaml = "0.9"
typetag = "0.2"
log = "0.4"
env_logger = "0.10"
clap = "4"
futures = "0.3"
http = "0.2"
hyper = { version = "0.14", features = ["full"] }
tokio = { version = "1", features = ["full"] }
reqwest = { version = "0.11", default-features = false }
kube = { version = "0.87", default-features = false, features = ["client"] }
k8s-openapi = { version = "0.20", features = ["v1_28"] }
