[package]
name = "chronos"
version = "0.1.0"
edition = "2021"
publish = false

[dependencies]
chrono = "*"
mime_guess = "*"
serde = { version = "*", features = ["derive"] }
serde_json = "*"
dirs = "*"
diesel = { version = "*", features = ["sqlite"] }
libsqlite3-sys = { version = "*", features = ["bundled"] }
