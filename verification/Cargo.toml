[package]
name = "allosaur"
version = "0.1.0"
edition = "2021"
publish = false

[dependencies]
blsful = "2"
merlin = "3"
rand = "0.8"
serde = { version = "1", features = ["derive"] }
sha2 = "0.10"
zeroize = "1"
