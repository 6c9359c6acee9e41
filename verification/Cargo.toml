[package]
name = "datafusion-regexp-extract-udf"
version = "0.1.0"
edition = "2021"
publish = false

[dependencies]
datafusion = { version = "*", default-features = false }
fancy-regex = "*"
lru = "*"
regex = "1"
thiserror = "*"
