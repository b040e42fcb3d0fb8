[package]
name = "fwon_rs"
version = "0.1.0"
edition = "2021"
publish = false

[dependencies]
itoa = "1"
rand = "0.8"
rayon = "1"
clap = { version = "4", features = ["derive"] }

[dev-dependencies]
ryu = "1"
