[package]
name = "newspenguin_bot"
version = "0.1.0"
edition = "2021"
publish = false

[dependencies]
chrono = { version = "0.4", default-features = false, features = ["clock", "std"] }
rss = { version = "2", default-features = false }
urlencoding = "2"
serde = { version = "1", features = ["derive"] }
serde_json = "1"
anyhow = "1"
futures = "0.3"
wasi = "*"
