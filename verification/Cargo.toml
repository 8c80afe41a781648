[package]
name = "distant"
version = "0.1.0"
edition = "2021"
publish = false

[dependencies]
orion = "*"
tokio = { version = "*", features = ["full"] }
log = "*"
fork = "*"
