[package]
name = "registry_core"
version = "0.1.0"
edition = "2021"
publish = false

[dependencies]
sha2 = "0.10"
hex = "0.4"
semver = "1"
url = "2"
spdx = "*"
serde_json = "1"
clap = { version = "4", features = ["derive"] }
