[package]
name = "bonsai-local"
version = "0.1.0"
edition = "2021"
publish = false

[dependencies]
anyhow = "=1.0.104"
axum = "=0.7.9"
bincode = "=1.3.3"
bonsai-sdk = "*"
clap = { version = "=4.6.7", features = ["derive"] }
opentelemetry = "*"
opentelemetry-otlp = { version = "*", default-features = false, features = ["grpc-tonic", "trace"] }
opentelemetry-semantic-conventions = "*"
opentelemetry_sdk = { version = "*", features = ["rt-tokio"] }
risc0-zkvm = { version = "=1.2.6", default-features = false, features = ["std"] }
serde_json = "=1.0.154"
thiserror = "=1.0.69"
tokio = { version = "=1.54.1", features = ["macros", "net", "rt-multi-thread", "sync", "time"] }
tower-http = { version = "=0.5.2", features = ["trace"] }
tracing = "=0.1.44"
tracing-opentelemetry = "*"
tracing-subscriber = { version = "=0.3.23", features = ["env-filter"] }
url = "=2.5.8"
uuid = { version = "=1.29.0", features = ["v4"] }
