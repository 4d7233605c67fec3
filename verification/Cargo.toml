[package]
name = "credential_workflow"
version = "0.1.0"
edition = "2021"
publish = false

[dependencies]
anyhow = "1"
clap = { version = "4", default-features = false, features = ["derive", "std", "help", "usage", "error-context"] }
serde_json = "1"
tracing = { version = "0.1", default-features = false, features = ["std"] }
