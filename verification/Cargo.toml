[package]
name = "actix_web_multipart_test"
version = "0.1.0"
edition = "2021"
publish = false

[dependencies]
uuid = { version = "*", features = ["v4"] }
serde_json = "*"
serde = { version = "*", features = ["derive"] }
bytes = "*"
actix-web = { version = "*", default-features = false }
