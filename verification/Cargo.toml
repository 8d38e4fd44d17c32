[package]
name = "crawler"
version = "0.1.0"
edition = "2021"
publish = false

[dependencies]
crossterm = { version = "*", features = ["event-stream"] }
futures-util = "*"
html_parser = "*"
rand = "*"
reqwest = { version = "0.12", default-features = false, features = ["rustls-tls"] }
scraper = "*"
tokio = { version = "1", features = ["macros", "rt-multi-thread", "sync", "time"] }
tracing = "*"
url = "2"
