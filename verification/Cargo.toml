[package]
name = "graphrag"
version = "0.1.0"
edition = "2021"
publish = false

[dependencies]
regex = "=1.13.1"
serde = { version = "=1.0.229", features = ["derive"] }
serde_json = "=1.0.154"
thiserror = "=2.0.21"
tokio = { version = "=1.54.1", features = ["full"] }
axum = "=0.8.9"
axum-macros = "=0.5.1"
aide = { version = "=0.15.1", features = ["axum", "axum-json", "scalar", "macros"] }
schemars = "=0.9.0"
futures = "=0.3.34"
tracing = "=0.1.44"
tracing-subscriber = "=0.3.23"
ollama-oxide = { version = "=0.2.0", features = ["model"] }
ollama-rs = "=0.3.6"
tonic = "=0.14.6"
tonic-types = "=0.14.6"
axum-error-handler = "=0.2.1"
