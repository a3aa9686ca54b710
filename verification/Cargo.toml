[package]
name = "arena_sessions"
version = "0.1.0"
edition = "2021"
publish = false

[dependencies]
serde_json = "*"
uuid = { version = "*", features = ["v4"] }
serde = { version = "*", features = ["derive"] }
actix-web = "*"
actix-files = "*"
handlebars = "*"
simple-websockets = "*"
