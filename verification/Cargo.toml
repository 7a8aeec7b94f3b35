[package]
name = "tunloop"
version = "0.1.0"
edition = "2021"
publish = false

[dependencies]
smoltcp = "0.12"
clap = { version = "4", features = ["derive"] }
ctrlc = "3"
tun = "0.7"
