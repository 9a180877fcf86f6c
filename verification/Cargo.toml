[package]
name = "poker_cfr"
version = "0.1.0"
edition = "2021"
publish = false

[dependencies]
bincode = "1.3"
serde = { version = "1", features = ["derive"] }
rayon = "1"
once_cell = "1"
clap = { version = "4", features = ["derive"] }
crossterm = "0.27"
ordered-float = "4"
regex = "1"
