[package]
name = "siteproxy"
version = "0.1.0"
edition = "2021"
publish = false

[dependencies]
scraper = "*"
reqwest = { version = "*", default-features = false, features = ["blocking"] }

[dev-dependencies]
hex = "*"
