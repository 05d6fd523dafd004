[package]
name = "mdbook_man"
version = "0.1.0"
edition = "2021"
publish = false

[dependencies]
comrak = "=0.56.0"
mdbook = { version = "=0.4.52", default-features = false }
roffman = "=0.4.0"
serde = { version = "=1.0.229", features = ["derive"] }
