[package]
name = "eqforbeginner"
version = "0.1.0"
edition = "2021"
publish = false

[dependencies]
cpal = "*"
serde = { version = "1", features = ["derive"] }
serde_json = "1"
sha2 = "0.10"
rustfft = "6"

[dev-dependencies]
tempfile = "3"
