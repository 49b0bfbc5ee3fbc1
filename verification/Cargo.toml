[package]
name = "shrots"
version = "0.1.0"
edition = "2021"
publish = false

[dependencies]
clap = { version = "*", features = ["derive"] }
fltk = "*"
serde = { version = "*", features = ["derive"] }
serde_json = "*"
toml = "*"
