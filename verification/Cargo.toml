[package]
name = "zulrah_sim"
version = "0.1.0"
edition = "2021"
publish = false

[dependencies]
randomize = "3"
getrandom = "0.2"
serde = { version = "1", features = ["derive"] }
toml = "*"
csv = "1"
anyhow = "1"
smallvec = "1"
