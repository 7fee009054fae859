[package]
name = "github_workflow_update"
version = "0.1.0"
edition = "2021"
publish = false

[dependencies]
lenient_semver = "*"
semver = "*"
serde_json = "*"
reqwest = { version = "*", default-features = false }
tokio = { version = "*", features = ["rt-multi-thread", "macros", "sync", "fs", "io-util"] }
tokio-stream = "*"
futures = "*"
clap = { version = "*", features = ["derive"] }
env_logger = "*"
serde_yaml = "*"
thiserror = "*"
