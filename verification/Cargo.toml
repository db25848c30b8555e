[package]
name = "whiskers2"
version = "0.1.0"
edition = "2021"
publish = false

[dependencies]
anyhow = "1"
catppuccin = "2"
clap = { version = "4", features = ["derive"] }
clap-stdin = "*"
css-colors = "1"
indexmap = { version = "2", features = ["serde"] }
itertools = "0.12"
semver = { version = "1", features = ["serde"] }
serde = { version = "1", features = ["derive"] }
serde_json = "1"
serde_yaml = "0.9"
tera = "1"
thiserror = "1"
