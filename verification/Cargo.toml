[package]
name = "hsr_codegen"
version = "0.1.0"
edition = "2021"
publish = false

[dependencies]
heck = "0.3"
http = "0.2"
openapiv3 = "0.3"
serde_yaml = "0.8"
serde_json = "1"
