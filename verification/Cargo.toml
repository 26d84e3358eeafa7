[package]
name = "fzf_dclist"
version = "0.1.0"
edition = "2021"
publish = false

[dependencies]
clap = { version = "4", features = ["derive"] }
handlebars = "4"
itertools = "0.12"
serde = { version = "1", features = ["derive"] }
serde_json = "1"
toml = "0.8"
