[package]
name = "warc_parser"
version = "0.1.0"
edition = "2021"
publish = false

[dependencies]
derive_builder = "=0.20.2"
docopt = "=1.1.1"
entrez-rs = "=0.1.4"
flate2 = "=1.1.10"
serde = { version = "=1.0.229", features = ["derive"] }
serde_json = "=1.0.154"
serde-xml-rs = "=0.8.2"
tantivy = "0.22"
tokio = { version = "=1.54.1", features = ["full"] }
