[package]
name = "argen"
version = "0.1.0"
edition = "2021"
publish = false

[dependencies]
getopts = "*"
serde = { version = "*", features = ["derive"] }
serde_json = "*"
toml = "*"
