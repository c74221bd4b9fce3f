[package]
name = "numeric_core"
version = "0.1.0"
edition = "2021"
publish = false

[dependencies]
itertools = "0.14"
clap = { version = "4", features = ["derive"] }
derive_more = { version = "2", features = ["display", "error"] }
ratatui = "0.29"
crossterm = "0.28"
