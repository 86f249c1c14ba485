[package]
name = "accepted"
version = "0.1.0"
edition = "2021"
publish = false

[dependencies]
ropey = { version = "=1.6.1", default-features = false }
unicode-width = "=0.1.14"
aho-corasick = "=0.7.20"
termion = "=1.5.6"
ansi_colours = "=1.2.3"
serde = { version = "=1.0.229", features = ["derive"] }
toml = "=0.5.11"
shellexpand = "=2.1.2"
serde_json = "1"
fuzzy-matcher = "0.3"
