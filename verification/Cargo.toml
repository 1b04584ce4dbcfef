[package]
name = "rsky_feedgen"
version = "0.1.0"
edition = "2021"
publish = false

[dependencies]
serde_json = "1"
dotenvy = "0.15"
anyhow = "1"
