[package]
name = "robrix_social"
version = "0.1.0"
edition = "2021"
publish = false

[dependencies]
ruma = "*"
htmlize = "*"
serde = { version = "*", features = ["derive"] }
serde_json = "*"
url = { version = "*", features = ["serde"] }
chrono = "*"
thiserror = "*"
