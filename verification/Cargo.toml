[package]
name = "blueshoes"
version = "0.1.0"
edition = "2021"
publish = false

[dependencies]
serde = { version = "1", features = ["derive"] }
serde_json = "1"
sha2 = "0.10"
md5 = "0.7"
chrono = "0.4"
chacha20poly1305 = "0.10"
rand = "*"
base64 = "0.22"
urlencoding = "2"
ureq = { version = "2", features = ["json"] }
jsonwebtoken = "9"
clap = { version = "4", features = ["derive"] }
flate2 = "1"
tar = "0.4"
rustix = { version = "1", features = ["fs"] }
