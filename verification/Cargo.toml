[package]
name = "oc-history"
version = "0.1.0"
edition = "2021"
publish = false

[dependencies]
serde = { version = "1", features = ["derive"] }
serde_json = "1"
chrono = "0.4"
textwrap = "0.16"
unicode-width = "0.2"
ureq = "2"
clap = { version = "4", features = ["derive"] }
crossterm = "0.28"
ratatui = "0.29"
colored = "2"
home = "0.5"
rayon = "1"
arboard = { version = "3", default-features = false }
