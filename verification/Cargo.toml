[package]
name = "word_utils"
version = "0.1.0"
edition = "2021"
publish = false

[dependencies]
colored = "*"
fancy-regex = "*"
notify = "*"
prompted = "*"
serde = { version = "*", features = ["derive"] }
serde_json = { version = "*", features = ["preserve_order"] }
zip-extensions = "*"
