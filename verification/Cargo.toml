[package]
name = "kimchi"
version = "0.1.0"
edition = "2021"
publish = false

[dependencies]
url = "2"
regex = "1"
linkify = "0.10"
pulldown-cmark = "0.9"
html5ever = "0.26"
markup5ever_rcdom = "0.2"
reqwest = { version = "0.11", default-features = false, features = ["blocking", "rustls-tls"] }
tokio = { version = "1", features = ["rt-multi-thread", "sync", "macros", "time"] }
deadpool = "0.9"
glob = "0.3"
anyhow = "1"
serde = { version = "1", features = ["derive"] }
toml = "0.7"
structopt = "0.3"
indicatif = "0.17"
