[package]
name = "docxside-pdf"
version = "0.1.0"
edition = "2021"
publish = false

[dependencies]
clap = { version = "4", features = ["derive"] }
env_logger = "*"
image = { version = "*", default-features = false, features = ["png"] }
log = "*"
pdf-writer = "*"
roxmltree = "*"
ttf-parser = "*"
zip = { version = "*", default-features = false, features = ["deflate"] }
