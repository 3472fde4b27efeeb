[package]
name = "prqlite"
version = "0.1.0"
edition = "2021"
publish = false

[dependencies]
prql-compiler = "=0.5.2"
comfy-table = "=6.2.0"
unicode-width = "=0.1.14"
anyhow = "=1.0.104"
chrono = "=0.4.45"
clap = { version = "=3.2.25", features = ["derive"] }
crossterm = "=0.25.0"
tui = "=0.19.0"
rusqlite = { version = "=0.29.0", features = ["bundled"] }
tokio = { version = "=1.54.1", features = ["macros", "rt-multi-thread"] }
lazy_static = "=1.5.1"
