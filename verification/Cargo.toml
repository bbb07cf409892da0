[package]
name = "tol"
version = "0.1.0"
edition = "2021"
publish = false

[dependencies]
unicode-ident = "1"
colored = "*"
clap = { version = "4", features = ["derive"] }
miette = "*"
thiserror = "*"
