[package]
name = "ehyaioess"
version = "0.1.0"
edition = "2021"
publish = false

[dependencies]
uuid = { version = "*", features = ["v4"] }
serde = { version = "*", features = ["derive"] }
chatgpt_rs = "*"
tokio = { version = "*", features = ["rt"] }
