[package]
name = "letterman_email_body_parser"
version = "0.1.0"
edition = "2021"

[dependencies]
base64 = "0.13"
openssl = "0.10"
quoted_printable = "0.4"
regex = "1"
tokio = { version = "1", features = ["sync"] }
trust-dns-resolver = "0.20"
