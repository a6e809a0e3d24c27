[package]
name = "royal_road_archiver"
version = "0.1.0"
edition = "2021"
publish = false

[dependencies]
bytes = "=1.12.1"
chrono = "=0.4.45"
clap = { version = "=4.6.7", features = ["derive"] }
epub-builder = "=0.7.4"
html2md = "=0.2.17"
indicatif = "=0.17.11"
path-slash = "=0.2.1"
regex = "=1.13.1"
reqwest = { version = "=0.11.27", features = ["blocking"] }
scraper = { version = "=0.18.1", default-features = false, features = ["deterministic"] }
serde_json = "=1.0.154"
tempfile = "=3.27.0"
thiserror = "=1.0.69"
url = "=2.5.8"
zip-extract = "=0.1.3"
