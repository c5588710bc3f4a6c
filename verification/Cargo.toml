[package]
name = "gophkeeper_client"
version = "0.1.0"
edition = "2021"
publish = false

[dependencies]
aes-gcm = "*"
anyhow = "*"
arboard = "*"
base64 = "*"
clap = { version = "*", features = ["derive"] }
crossterm = "*"
home = "*"
jsonwebtoken = "*"
ratatui = "*"
reqwest = { version = "*", default-features = false, features = ["json"] }
rpassword = "*"
serde = { version = "*", features = ["derive"] }
serde_json = "*"
sha2 = "*"
tokio = { version = "*", features = ["rt-multi-thread", "fs", "io-util"] }
