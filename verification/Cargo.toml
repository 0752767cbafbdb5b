[package]
name = "genact_config"
version = "0.1.0"
edition = "2021"
publish = false

[dependencies]
humantime = "*"
url = "*"
clap = { version = "*", features = ["derive"] }
clap_complete = "*"
instant = "*"
