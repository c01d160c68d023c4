[package]
name = "rnote_engine"
version = "0.1.0"
edition = "2021"
publish = false

[dependencies]
image = "*"
rayon = "*"
clap = { version = "*", features = ["derive"] }
smol = "*"
indicatif = "*"
anyhow = "*"
