[package]
name = "vimax"
version = "0.1.0"
edition = "2021"
publish = false

[dependencies]
ropey = { version = "1.6", default-features = false }
nucleo-matcher = "0.3"
serde_json = "1"
lsp-types = "*"
anyhow = "1"
arboard = { version = "3", default-features = false }
ignore = "0.4"
