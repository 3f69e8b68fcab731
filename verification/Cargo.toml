[package]
name = "luther_workflow"
version = "0.1.0"
edition = "2021"
publish = false

[dependencies]
sha2 = "0.10"
chrono = "0.4"
serde = { version = "1", features = ["derive"] }
serde_json = "1"
rusqlite = { version = "*", features = ["bundled"] }
thiserror = "*"
tokio = { version = "1", features = ["full"] }
tracing = "0.1"
libc = "0.2"

[dev-dependencies]
tempfile = "3"
