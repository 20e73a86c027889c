[package]
name = "openapi-model-generator"
version = "0.1.0"
edition = "2021"
publish = false

[dependencies]
indexmap = "2"
openapiv3 = "2"
serde_json = "1"
serde_yaml = "0.9"
