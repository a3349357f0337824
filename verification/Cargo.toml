[package]
name = "soundpacks"
version = "0.1.0"
edition = "2021"
publish = false

[dependencies]
serde_json = "*"
serde = { version = "*", features = ["derive"] }
zip = { version = "*", default-features = false, features = ["deflate"] }
tar = "*"
flate2 = "*"
sevenz-rust = "*"
unrar = "*"
directories = "*"
