[package]
name = "rusty_todo"
version = "0.1.0"
edition = "2021"
publish = false

[dependencies]
chrono = "0.4"
clap = { version = "3.2", features = ["derive"] }
colored = "2"
dirs = "4"
