[package]
name = "parser_core"
version = "0.1.0"
edition = "2021"
publish = false

[dependencies]
calamine = "=0.36.1"
clap = { version = "=4.6.7", features = ["derive"] }
docx-rs = "=0.4.22"
pdf-extract = "=0.12.1"
rayon = "=1.12.0"
tempfile = "=3.27.0"
zip = "=8.6.0"
