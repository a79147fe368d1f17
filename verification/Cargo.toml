[package]
name = "k3dev"
version = "0.1.0"
edition = "2021"
publish = false

[dependencies]
anyhow = "1"
bollard = "0.19"
chrono = "0.4"
crossterm = "0.28"
dirs = "5"
futures-util = "0.3"
k8s-openapi = { version = "0.25", features = ["v1_32"] }
kube = { version = "1", features = ["client"] }
nix = { version = "0.29", features = ["fs", "user"] }
num_cpus = "1"
open = "5"
pem = "3"
regex = "1"
reqwest = { version = "0.12", default-features = false, features = ["json", "rustls-tls"] }
serde = { version = "1", features = ["derive"] }
serde_json = "1"
serde_yaml = "0.9"
sha2 = "0.10"
tar = "0.4"
tokio = { version = "1", features = ["full"] }
tokio-util = "0.7"
x509-parser = "0.16"
