[package]
name = "apiodactyl"
version = "0.1.0"
edition = "2021"
publish = false

[dependencies]
sha2 = "0.10"
hex = "0.4"
uuid = { version = "1", features = ["v4"] }
clap = "4"
chrono = "0.4"
dotenvy = "0.15"
