[package]
name = "rss_indexer"
version = "0.1.0"
edition = "2021"
publish = false

[dependencies]
rss = "*"
url = "*"
reqwest = { version = "*", default-features = false, features = ["blocking"] }
