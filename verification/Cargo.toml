[package]
name = "webserver"
version = "0.1.0"
edition = "2021"
publish = false

[dependencies]
regex = "*"
urlencoding = "*"
handlebars = "*"
serde = { version = "*", features = ["derive"] }
clap = { version = "*", features = ["derive"] }
