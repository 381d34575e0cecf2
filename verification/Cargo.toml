[package]
name = "ch559"
version = "0.1.0"
edition = "2021"
publish = false

[dependencies]
clap = { version = "4", features = ["derive"] }
exitcode = "1"
rusb = "0.9"
srand = "*"
thiserror = "1"
