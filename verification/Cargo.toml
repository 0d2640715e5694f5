[package]
name = "libsql_client"
version = "0.1.0"
edition = "2021"
publish = false

[dependencies]
serde_json = "1"
anyhow = "1"
http = "0.2"
bytes = "1"
spin-sdk = "*"
