[package]
name = "cbuild"
version = "0.1.0"
edition = "2021"
publish = false

[dependencies]
anstyle = "1"
clap = { version = "4", features = ["derive"] }
serde = { version = "1", features = ["derive"] }
toml = "0.8"
