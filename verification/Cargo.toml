[package]
name = "compiler"
version = "0.1.0"
edition = "2021"
publish = false

[dependencies]
lang-c = "*"
thiserror = "*"
clap = { version = "4", features = ["derive"] }
