[package]
name = "nexbox"
version = "0.1.0"
edition = "2021"
publish = false

[dependencies]
url = "2"
regex = "1"
encoding_rs = "0.8"
serde = { version = "1", features = ["derive"] }
serde_json = "1"
chrono = "0.4"
uuid = { version = "1", features = ["v4"] }
urlencoding = "2"
dirs = "5"
walkdir = "2"
log = "0.4"
