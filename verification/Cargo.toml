[package]
name = "odbc2parquet"
version = "0.1.0"
edition = "2021"
publish = false

[dependencies]
anyhow = "*"
atoi = "*"
odbc-api = "*"
parquet = { version = "*", default-features = false }
