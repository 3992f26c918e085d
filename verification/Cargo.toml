[package]
name = "ggoto"
version = "0.1.0"
edition = "2021"
publish = false

[dependencies]
anyhow = "*"
arboard = "*"
chrono = { version = "*", features = ["serde"] }
crossterm = "*"
dirs = "*"
ratatui = "*"
regex = "*"
serde = { version = "*", features = ["derive"] }
serde_json = "*"
tokio = { version = "*", features = ["macros", "rt-multi-thread", "process", "sync", "time"] }
