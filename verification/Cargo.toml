[package]
name = "katana_storage"
version = "0.1.0"
edition = "2021"
publish = false

[dependencies]
anyhow = "1"
libmdbx = "0.1"
tempfile = "3"
thiserror = "1"
tracing = "0.1"
