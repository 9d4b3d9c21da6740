[package]
name = "cross"
version = "0.2.5"
edition = "2021"
publish = false

[dependencies]
const-sha1 = "=0.3.0"
shell-words = "=1.1.1"
serde = { version = "=1.0.229", features = ["derive"] }
serde_json = "=1.0.154"
toml = "=0.8.23"
rustc_version = "=0.4.1"
glob = "0.3"
