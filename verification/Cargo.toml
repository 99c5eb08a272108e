[package]
name = "gsc_client"
version = "0.1.0"
edition = "2021"
publish = false

[dependencies]
globset = "*"
percent-encoding = "*"
clap = "*"
reqwest = { version = "*", default-features = false, features = ["blocking"] }
rpassword = "*"
fs2 = "*"
serde = { version = "*", features = ["derive"] }
serde_json = "*"
