[package]
name = "telemetry_collectors"
version = "0.1.0"
edition = "2021"
publish = false

[dependencies]
async-trait = "0.1"
chrono = { version = "0.4", default-features = false, features = ["clock", "std"] }
clickhouse = { version = "0.13", default-features = false, features = ["time"] }
futures = "0.3"
http = "0.2"
hyper = { version = "0.14", features = ["client", "http1", "tcp"] }
k8s-openapi = { version = "0.22", features = ["v1_26"] }
kube = { version = "0.93", default-features = false, features = ["client", "runtime"] }
libloading = "0.8"
prost = "0.12"
serde = { version = "1", features = ["derive"] }
serde_with = "3"
thiserror = "1"
time = "0.3"
tokio = { version = "1", features = ["full"] }
tonic = "0.11"
tower = { version = "0.4", features = ["util"] }
tracing = "0.1"
walkdir = "2"
