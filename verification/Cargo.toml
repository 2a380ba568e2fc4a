[package]
name = "odt_to_md"
version = "0.1.0"
edition = "2021"
publish = false

[dependencies]
xml-rs = "*"
zip = { version = "*", default-features = false, features = ["deflate"] }
