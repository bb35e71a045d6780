[package]
name = "castor"
version = "0.1.0"
edition = "2021"
publish = false

[dependencies]
chrono = { version = "0.4", features = ["serde"] }
clap = { version = "4", features = ["derive"] }
clap_complete = "4"
colored = "*"
crossterm = "*"
directories = "*"
fs_extra = "*"
ratatui = "*"
rayon = "1"
serde = { version = "1", features = ["derive"] }
serde_json = "1"
thiserror = "*"
tui-markdown = "*"
unicode-width = "*"
uuid = { version = "1", features = ["v4", "serde"] }
