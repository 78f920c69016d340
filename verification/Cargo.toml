[package]
name = "chat_input"
version = "0.1.0"
edition = "2021"
publish = false

[dependencies]
anyhow = "1"
arboard = "3"
chrono = "0.4"
crokey = "1"
crossterm = "*"
image = { version = "0.25", default-features = false, features = ["png"] }
mime_guess = "2"
tokio = { version = "1", features = ["rt", "sync"] }
tracing = "0.1"
uuid = "1"
