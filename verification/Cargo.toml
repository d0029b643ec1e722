[package]
name = "openlogi_onboard"
version = "0.1.0"
edition = "2021"
publish = false

[dependencies]
anyhow = "1"
backon = { version = "1", default-features = false, features = ["std"] }
clap = { version = "4", features = ["derive"] }
serde = { version = "1", features = ["derive"] }
tokio = { version = "1", features = ["sync", "rt", "macros"] }
tracing = "0.1"
