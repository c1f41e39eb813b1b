[package]
name = "ninja_api"
version = "0.1.0"
edition = "2021"
publish = false

[dependencies]
dotenv = "0.15"
reqwest = { version = "*", default-features = false, features = ["blocking"] }
