[package]
name = "devserver"
version = "0.1.0"
edition = "2021"
publish = false

[dependencies]
sha1 = "0.10"
base64 = "0.22"
notify = "6"
native-tls = "0.2"
clap = { version = "4", features = ["derive"] }
anyhow = "1"
