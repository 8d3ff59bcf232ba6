[package]
name = "parquet_write"
version = "0.1.0"
edition = "2021"
publish = false

[dependencies]
parquet2 = "0.17"
