[package]
name = "mdbook-rolltables"
version = "0.1.0"
edition = "2021"
publish = false

[dependencies]
anyhow = "1"
mdbook = { version = "0.4", default-features = false }
pico-args = "0.5"
pulldown-cmark = { version = "*", default-features = false }
pulldown-cmark-to-cmark = "*"
semver = "1"
serde_json = "1"
toml = "0.5"
