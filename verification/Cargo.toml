[package]
name = "hackomatic"
version = "0.1.0"
edition = "2021"
publish = false

[dependencies]
form_urlencoded = "*"
maud = "*"
serde = { version = "*", features = ["derive"] }
sqlite = { version = "*", features = ["bundled"] }
tiny_http = "*"
toml = "*"
