[package]
name = "jobjrnl"
version = "0.1.0"
edition = "2021"
publish = false

[dependencies]
chrono = "0.4"
sqlx = { version = "0.8", default-features = false, features = ["runtime-async-std", "sqlite", "chrono", "migrate"] }
async-std = { version = "1", features = ["attributes"] }
async-trait = "0.1"
clap = { version = "4", features = ["derive"] }
