[package]
name = "bosiclaw"
version = "0.1.0"
edition = "2021"
publish = false

[dependencies]
dirs = "5"
flate2 = "1"
tar = "0.4"
serde = { version = "1", features = ["derive"] }
serde_json = "1"
log = "0.4"
