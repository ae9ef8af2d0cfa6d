[package]
name = "pandoc_katex"
version = "0.1.0"
edition = "2021"
publish = false

[dependencies]
katex = "0.4"
serde = { version = "1", features = ["derive"] }
serde_json = { version = "1", features = ["preserve_order"] }
toml = "*"
clap = { version = "4", features = ["derive", "env"] }
anyhow = "1"
