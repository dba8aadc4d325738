[package]
name = "pseudo"
version = "0.1.0"
edition = "2021"
publish = false

[dependencies]
chrono = "0.4"
rand = "0.9"
serde_json = "1"
annotate-snippets = "0.11"
anstream = "0.6"
