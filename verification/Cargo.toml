[package]
name = "glyph8"
version = "0.1.0"
edition = "2021"
publish = false

[dependencies]
anyhow = "1"
blake3 = "1"
clap = { version = "4", features = ["derive"] }
crossterm = "0.28"
tetanes-core = "0.12"
thiserror = "2"
