[package]
name = "unlade"
version = "0.1.0"
edition = "2021"
publish = false

[dependencies]
clap = { version = "4", features = ["derive"] }
csv = "1"
jiff = "0.2"
miette = { version = "7", features = ["fancy"] }
semver = "1"
serde = { version = "1", features = ["derive"] }
thiserror = "2"

[dev-dependencies]
serde_json = "1"
