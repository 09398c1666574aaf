[package]
name = "avocado"
version = "0.1.0"
edition = "2021"
publish = false

[dependencies]
bson = "0.13"
mongodb = "0.3"
serde = "1"
