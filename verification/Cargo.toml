[package]
name = "doukutsu_extractor"
version = "0.1.0"
edition = "2021"
publish = false

[dependencies]
anyhow = "*"
glob = "*"
pico-args = "*"
serde = { version = "*", features = ["derive"] }
serde_json = "*"
