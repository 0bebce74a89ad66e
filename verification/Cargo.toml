[package]
name = "quill"
version = "0.1.0"
edition = "2021"
publish = false

[dependencies]
serde = { version = "=1.0.229", features = ["derive"] }
serde_json = "=1.0.154"
base64 = "=0.22.1"
sha2 = "=0.10.9"
encoding_rs = "=0.8.44"
chardetng = "=0.1.17"
pulldown-cmark = { version = "=0.13.6", default-features = false }
ammonia = "=4.2.4"
scraper = "=0.29.0"
image = { version = "0.25", default-features = false, features = ["png", "jpeg", "webp"] }
ttf-parser = "0.25"
wuff = "*"
zip = { version = "2", default-features = false, features = ["deflate"] }
chrono = "0.4"
