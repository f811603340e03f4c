[package]
name = "chost_md"
version = "0.1.0"
edition = "2021"
publish = false

[dependencies]
anyhow = "1"
chrono = { version = "0.4", features = ["unstable-locales"] }
clap = { version = "4", features = ["derive"] }
indexmap = "2"
serde = { version = "1", features = ["derive"] }
serde-aux = "4"
serde_json = "1"
