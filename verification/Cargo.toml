[package]
name = "stash"
version = "0.1.0"
edition = "2021"
publish = false

[dependencies]
indexmap = "2"
serde = { version = "1", features = ["derive"] }
serde_json = "1"
directories = "5"
chrono = "0.4"
crossbeam = "0.8"
webbrowser = "*"
