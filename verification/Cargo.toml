[package]
name = "betfair_data"
version = "0.1.0"
edition = "2021"
publish = false

[dependencies]
chrono = "0.4"
simdutf8 = "0.1"
bytes = "1"
serde = { version = "1", features = ["derive"] }
serde_json = "1"
flate2 = "1"
tar = "0.4"
zip = { version = "0.6", default-features = false, features = ["deflate"] }
bzip2-rs = "0.1"
