[package]
name = "foo_controller"
version = "0.1.0"
edition = "2021"
publish = false

[dependencies]
actix-rt = "=2.15.0"
actix-web = { version = "=4.18.1", default-features = false, features = ["macros"] }
chrono = { version = "=0.4.45", features = ["serde"] }
futures = "=0.3.34"
k8s-openapi = { version = "=0.27.1", features = ["latest"] }
kube = { version = "=3.1.0", default-features = false, features = ["client", "derive", "runtime"] }
kube-runtime = "=3.1.0"
opentelemetry = "=0.33.1"
opentelemetry-otlp = { version = "0.33", default-features = false, features = ["grpc-tonic", "trace"] }
opentelemetry_sdk = { version = "0.33", features = ["rt-tokio"] }
prometheus = { version = "=0.14.0", default-features = false }
schemars = { version = "=1.2.3", features = ["chrono04"] }
seahorse = "=2.2.0"
serde = { version = "=1.0.229", features = ["derive"] }
serde_json = "=1.0.154"
serde_yaml = "=0.9.34"
thiserror = "=2.0.21"
tokio = { version = "=1.54.1", features = ["macros", "rt-multi-thread", "sync", "time"] }
tracing = "=0.1.44"
tracing-opentelemetry = "=0.34.0"
tracing-subscriber = { version = "=0.3.23", features = ["env-filter", "json"] }
