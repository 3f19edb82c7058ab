[package]
name = "rglgate"
version = "0.1.0"
edition = "2021"
publish = false

[dependencies]
argon2 = "*"
nonblock = "*"
ron = "*"
rusqlite = { version = "*", features = ["bundled"] }
serde = { version = "*", features = ["derive"] }
termion = "*"
termios = "*"
trim-in-place = "*"
