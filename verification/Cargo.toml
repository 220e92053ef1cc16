[package]
name = "handlebars_response_cache"
version = "0.1.0"
edition = "2021"
publish = false

[dependencies]
handlebars = "=6.4.4"
serde_json = "=1.0.151"
html-minifier = "=5.0.2"
entity-tag = { version = "=0.2.0", features = ["weak-hasher"] }
