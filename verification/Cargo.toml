[package]
name = "oaf"
version = "0.1.0"
edition = "2021"
publish = false

[dependencies]
bytemuck = "*"
clap = { version = "*", features = ["derive"] }
xshell = "*"
