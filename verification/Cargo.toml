[package]
name = "papyrus"
version = "0.1.0"
edition = "2021"
publish = false

[dependencies]
anyhow = "=1.0.104"
clap = { version = "=4.6.7", features = ["derive"] }
gray_matter = "=0.2.9"
pulldown-cmark = "=0.13.5"
regex = "=1.13.1"
serde = { version = "=1.0.229", features = ["derive"] }
serde_yaml = "=0.9.34"
syntect = { version = "=5.3.0", default-features = false, features = ["default-fancy"] }
tera = "=1.20.1"
thiserror = "=1.0.69"
tokio = { version = "=1.54.1", features = ["process", "macros", "rt-multi-thread"] }
toml = "=1.1.8"
uuid = { version = "=1.29.0", features = ["v4"] }
walkdir = "=2.5.0"
zip = { version = "=0.6.6", default-features = false, features = ["deflate"] }
