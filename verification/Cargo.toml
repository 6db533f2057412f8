[package]
name = "rfr"
version = "0.1.0"
edition = "2021"
publish = false

[dependencies]
scraper = "*"
clap = "4"
reqwest = { version = "*", default-features = false, features = ["blocking", "rustls-tls"] }
