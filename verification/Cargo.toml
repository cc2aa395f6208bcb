[package]
name = "dkregistry"
version = "0.1.0"
edition = "2021"
publish = false

[dependencies]
base64 = "=0.13.1"
bytes = "1"
futures = "0.3"
reqwest = { version = "=0.11.27", default-features = false, features = ["json", "stream"] }
serde = { version = "1", features = ["derive"] }
serde_json = "1"
sha2 = "=0.9.9"
tokio = { version = "1", features = ["time"] }
