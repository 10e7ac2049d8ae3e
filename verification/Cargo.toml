[package]
name = "eigen"
version = "0.1.0"
edition = "2021"
publish = false

[dependencies]
lol_html = "=2.9.0"
sha2 = "=0.10.9"
glob = "=0.3.4"
minify-html = "=0.18.1"
regex = "=1.13.1"
serde = { version = "=1.0.229", features = ["derive"] }
serde_json = "=1.0.154"
clap = { version = "=4.6.7", features = ["derive"] }
eyre = "=0.6.14"
walkdir = "=2.5.0"
tracing = "=0.1.44"
chrono = "=0.4.45"
minijinja = "=2.24.0"
slug = "=0.1.6"
scraper = "=0.29.0"
lightningcss = "=1.0.0-alpha.72"
