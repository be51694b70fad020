[package]
name = "procurement_core"
version = "0.1.0"
edition = "2021"
publish = false

[dependencies]
bcrypt = "*"
chrono = "*"
lettre = { version = "*", default-features = false, features = ["smtp-transport", "builder"] }
serde = { version = "*", features = ["derive"] }
serde_json = "*"
