[package]
name = "elv"
version = "0.13.3"
edition = "2021"
publish = false

[dependencies]
anyhow = "=1.0.104"
chrono = { version = "=0.4.45", features = ["serde"] }
clap = { version = "=4.6.7", features = ["derive"] }
colored = "=2.2.0"
config = { version = "=0.13.4", default-features = false, features = ["toml"] }
directories = "=5.0.1"
html2text = "=0.17.4"
regex = "=1.13.1"
reqwest = { version = "=0.11.27", default-features = false, features = ["blocking", "cookies", "rustls-tls"] }
scraper = { version = "=0.18.1", features = ["deterministic"] }
serde = { version = "=1.0.229", features = ["derive"] }
serde_cbor = "=0.11.2"
serde_json = "=1.0.154"
thiserror = "=1.0.69"
toml = "=0.8.23"
url = "=2.5.8"
