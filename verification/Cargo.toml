[package]
name = "colmenar"
version = "0.1.0"
edition = "2021"
publish = false

[dependencies]
heck = "*"
serde_urlencoded = "*"
openapiv3 = "*"
serde_json = "*"
serde_yaml = "*"
genco = "*"
