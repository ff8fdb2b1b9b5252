[package]
name = "self_update_example"
version = "0.1.0"
edition = "2021"
publish = false

[dependencies]
semver = "=1.0.28"
camino = "1"
color-eyre = "0.6"
duct = "0.13"
self_update = { version = "=0.41.0", default-features = false, features = ["rustls"] }
serde = { version = "1", features = ["derive"] }
serde_with = "3"
structopt = "0.3"
toml = "*"
