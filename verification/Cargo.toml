[package]
name = "solcore"
version = "0.1.0"
edition = "2021"
publish = false

[dependencies]
handlebars = "*"
serde = { version = "*", features = ["derive"] }
