[package]
name = "redb_kvs"
version = "0.1.0"
edition = "2021"
publish = false

[dependencies]
redb = "*"
futures = "0.3"

[dev-dependencies]
temp-dir = "*"
