[package]
name = "proto_descriptor"
version = "0.1.0"
edition = "2021"
publish = false

[dependencies]
anyhow = "1"
clap = { version = "3", features = ["derive"] }
handlebars = "4"
nom = "7"
serde = { version = "1", features = ["derive"] }
serde_json = "1"
