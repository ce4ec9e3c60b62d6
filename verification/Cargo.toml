[package]
name = "promptea"
version = "0.1.0"
edition = "2021"
publish = false

[dependencies]
regex = "*"
Inflector = "*"
serde = { version = "*", features = ["derive"] }
serde_json = "*"
indexmap = { version = "*", features = ["serde"] }
console = "*"
dialoguer = "*"
