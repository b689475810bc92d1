[package]
name = "pinger"
version = "0.1.0"
edition = "2021"
publish = false

[dependencies]
rand = "=0.8.8"
socket2 = { version = "=0.6.5", features = ["all"] }
structopt = "=0.3.26"
