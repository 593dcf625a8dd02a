[package]
name = "proton_launcher"
version = "0.1.0"
edition = "2021"
publish = false

[dependencies]
fancy-regex = "=0.19.2"
reqwest = { version = "=0.13.5", default-features = false, features = ["blocking"] }
zip = { version = "=8.6.0", default-features = false, features = ["deflate"] }
Boa = "=0.13.1"
clap = { version = "=4.6.7", features = ["derive"] }
dirs = "=7.0.0"
