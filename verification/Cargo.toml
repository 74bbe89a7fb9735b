[package]
name = "blog"
version = "0.1.0"
edition = "2021"
publish = false

[dependencies]
clap = "*"
color-eyre = "*"
handlebars = "*"
log = "*"
maud = "*"
pulldown-cmark = "*"
serde = { version = "*", features = ["derive"] }
serde_json = "*"
simple_logger = "*"
toml = "*"
