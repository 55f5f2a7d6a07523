[package]
name = "tarea"
version = "0.1.0"
edition = "2021"
publish = false

[dependencies]
chrono = "*"
uuid = { version = "*", features = ["v4"] }
rusqlite = { version = "*", features = ["bundled"] }
clap = "*"
clap_complete = "*"
colored = "*"
terminal_size = "*"
textwrap = "*"
atty = "*"
pager = "*"
tempfile = "*"
toml = "*"
serde = { version = "*", features = ["derive"] }
