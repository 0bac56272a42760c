[package]
name = "liked_shuffle"
version = "0.1.0"
edition = "2021"
publish = false

[dependencies]
rand = "0.8"
rspotify = "0.12"
rspotify-model = "0.12"
tokio = { version = "1", features = ["rt-multi-thread", "macros"] }
futures = "0.3"
dotenvy = "0.15"
