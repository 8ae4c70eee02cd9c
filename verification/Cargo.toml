[package]
name = "wordle_guesser"
version = "0.1.0"
edition = "2021"
publish = false

[dependencies]
clap = { version = "3", features = ["derive"] }
json = "0.12"
native-tls = "0.2"
regex = "1"
