[package]
name = "yacht"
version = "0.1.0"
edition = "2021"
publish = false

[dependencies]
bincode = "1.3"
chrono = "0.4"
crossterm = "0.27"
ratatui = "0.26"
serde = { version = "1", features = ["derive"] }
