[package]
name = "message_board"
version = "0.1.0"
edition = "2021"
publish = false

[dependencies]
actix-web = "4"
chrono = "0.4"
qstring = "0.7"
serde = { version = "1", features = ["derive"] }
serde_json = "1"
