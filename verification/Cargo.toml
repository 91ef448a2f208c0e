[package]
name = "mdbook_replace"
version = "0.1.0"
edition = "2021"
publish = false

[dependencies]
anyhow = "1"
mdbook = { version = "0.4", default-features = false }
serde_json = "1"
toml = "0.5"
