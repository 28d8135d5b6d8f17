[package]
name = "rustc_artifacts"
version = "0.1.0"
edition = "2021"
publish = false

[dependencies]
chrono = { version = "0.4", features = ["serde"] }
reqwest = { version = "0.12", features = ["json"] }
serde = "1"
serde_derive = "1"
serde_json = "1"
