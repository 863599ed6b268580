[package]
name = "tiktonick_bot"
version = "0.1.0"
edition = "2021"
publish = false

[dependencies]
regex = "*"
html-escape = "*"
serde = { version = "*", features = ["derive"] }
serde_json = "*"
reqwest = { version = "*", default-features = false, features = ["json"] }
tokio = { version = "*", features = ["rt-multi-thread", "macros", "time"] }
mongodb = "*"
