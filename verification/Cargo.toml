[package]
name = "mailcheck_lib"
version = "0.1.0"
edition = "2021"
publish = false

[dependencies]
idna = "0.5"
unicode-normalization = "0.1"
unicode-script = "0.5"
rand = "0.8"
anyhow = "1"
clap = { version = "4", features = ["derive"] }
serde = { version = "1", features = ["derive"] }
serde_json = "1"
csv = "1"
native-tls = "0.2"
trust-dns-resolver = "0.23"
