[package]
name = "newts"
version = "0.1.0"
edition = "2021"
publish = false

[dependencies]
regex = "1"
uuid = { version = "1", features = ["v4"] }
serde = { version = "1", features = ["derive"] }
serde_json = "1"
axum = "0.8"
tokio = { version = "1", features = ["full"] }
tower-http = { version = "*", features = ["cors"] }
clap = { version = "4", features = ["derive"] }
crossterm = "*"
ratatui = "*"
reqwest = { version = "*", default-features = false, features = ["json"] }
directories = "*"
arboard = { version = "*", default-features = false }
syntect = { version = "5", default-features = false, features = ["default-syntaxes", "default-themes", "regex-fancy"] }
tempfile = "3"
lazy_static = "1"
ignore = "*"
