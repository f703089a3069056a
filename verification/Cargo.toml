[package]
name = "field_bobbin"
version = "0.1.0"
edition = "2021"
publish = false

[dependencies]
anyhow = "1"
jotdown = "*"
serde_json = "1"
