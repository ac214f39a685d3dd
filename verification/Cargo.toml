[package]
name = "linegrep"
version = "0.1.0"
edition = "2021"
publish = false

[dependencies]
regex = "*"
clap = { version = "*", features = ["derive"] }
colored = "*"
glob = "*"
tokio = { version = "*", features = ["rt-multi-thread", "macros"] }
