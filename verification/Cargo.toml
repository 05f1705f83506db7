[package]
name = "agentsdk"
version = "0.1.0"
edition = "2021"
publish = false

[dependencies]
serde = { version = "1", features = ["derive"] }
serde_json = "1"
serde_yaml = "0.9"
dirs = "5"
heck = "0.5"
http = "1"
indexmap = "2"
reqwest = { version = "0.12", default-features = false }
tokio = { version = "1", features = ["rt", "macros", "fs", "process", "sync", "time"] }
async-trait = "0.1"
hecs = "0.10"
schemars = "1"
glob = "0.3"
futures = "0.3"
thiserror = "2"
