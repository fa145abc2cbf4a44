[package]
name = "vercheck"
version = "0.1.0"
edition = "2021"
publish = false

[dependencies]
toml = "=1.1.8"
octocrab = "=0.38.0"
tokio = { version = "1", features = ["rt"] }
