[package]
name = "stash_feed"
version = "0.1.0"
edition = "2021"
publish = false

[dependencies]
serde_json = "1"
actix = "0.7"
actix-web = "0.7"
actix-lua = "*"
futures = "0.1"
lazy_static = "1"
