[package]
name = "model_collaboration_engine"
version = "0.1.0"
edition = "2021"
publish = false

[dependencies]
async-openai = { version = "=0.43.0", default-features = false, features = ["chat-completion-types", "response-types"] }
async-trait = "=0.1.92"
file-id = "=0.2.3"
fs2 = "=0.4.3"
futures-util = "=0.3.34"
pyo3 = { version = "=0.30.1", features = ["abi3-py312"] }
pyo3-async-runtimes = { version = "=0.30.0", features = ["tokio-runtime"] }
reqwest = { version = "=0.13.5", default-features = false, features = ["json", "stream"] }
rusqlite = { version = "=0.40.2", features = ["bundled"] }
serde = { version = "=1.0.229", features = ["derive"] }
serde_json = { version = "=1.0.154", features = ["float_roundtrip"] }
serde_path_to_error = "=0.1.20"
sha2 = "=0.11.1"
thiserror = "=2.0.21"
tokio = { version = "=1.54.1", features = ["full"] }
tokio-rusqlite = { version = "=0.8.0", features = ["bundled"] }
tokio-util = "=0.7.20"
uuid = { version = "=1.29.0", features = ["v4"] }
