[package]
name = "table_commit"
version = "0.1.0"
edition = "2021"
publish = false

[dependencies]
datafusion-common = { version = "*", default-features = false }
