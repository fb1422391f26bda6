[package]
name = "rspin"
version = "0.1.0"
edition = "2021"
publish = false

[dependencies]
rand = "*"
clap = { version = "*", features = ["derive"] }
crossterm = "*"
directories = "*"
serde = { version = "*", features = ["derive"] }
toml = "*"
