[package]
name = "zed_registry"
version = "0.1.0"
edition = "2021"
publish = false

[dependencies]
sha2 = "0.10"
percent-encoding = "2"
uuid = "1"
hex = "0.4"
serde = { version = "1", features = ["derive"] }
serde_json = "1"
toml = "*"
anyhow = "1"
flate2 = "1"
tar = "0.4"
zip = { version = "*", default-features = false, features = ["deflate"] }
chrono = "0.4"
