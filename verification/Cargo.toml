[package]
name = "vitex"
version = "0.1.0"
edition = "2021"
publish = false

[dependencies]
clap = { version = "3.2", features = ["derive"] }
log = "0.4"
loggerv = "0.7"
serde = { version = "1", features = ["derive"] }
toml = "0.5"
