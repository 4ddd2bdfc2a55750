[package]
name = "bingrep"
version = "0.1.0"
edition = "2021"
publish = false

[dependencies]
regex = "1"
pcre2 = "0.2"
clap = { version = "4", features = ["derive"] }
